//! What happens before the window opens: the environment, the configuration and the cached state.
use vstd::prelude::*;
use vstd::string::*;

use crate::api::labelled;
use crate::auth::{
    enclosed, StoredSlackSession, CLIENT_ID_ENV, CLIENT_SECRET_ENV, REDIRECT_URI_ENV,
    USER_SCOPES_ENV,
};
use crate::collections::{contains_text, TextMap, TextSet};
use crate::items::{retain_items, ItemTest};
use crate::models::{TimelineItem, TimelineItemModel};
use crate::settings::{
    default_settings, AppSettings, AppSettingsModel, AppSettingsPatch, RuleId,
    SlackConfigSettingsModel, WorkspaceProfile, WorkspaceProfileModel,
};
use crate::state::UiState;
use crate::text::{
    decimal, find_char, join, join_texts, lines, non_blank, owned, position_of_char, same_text,
    slice_text, split_lines, to_chars, to_decimal, trim, trimmed, trimmed_non_blank,
};
use crate::time::Timestamp;

verus! {

/// The variable with the token of the app's socket.
pub const SLACK_APP_TOKEN_ENV: &'static str = "SLAXIDE_SLACK_APP_TOKEN";

/// How many items of the timeline are read from the cache.
pub const TIMELINE_LIMIT: usize = 1_500;

/// A text without the quotes around it, if it has a pair of them.
pub open spec fn unquoted(value: Seq<char>) -> Seq<char> {
    if value.len() >= 2 && (value.first() == '"' && value.last() == '"' || value.first() == '\''
        && value.last() == '\'') {
        value.subrange(1, value.len() - 1)
    } else {
        value
    }
}

/// The value of a line of a `.env` file: without white space and without quotes around it.
pub fn parse_dotenv_value(raw: &str) -> (r: String)
    ensures
        r@ == unquoted(trim(raw@)),
{
    let value = trimmed(raw);
    let chars = to_chars(value.as_str());
    let count: usize = chars.len();
    if count >= 2 && (chars[0] == '"' && chars[count - 1] == '"' || chars[0] == '\'' && chars[count
        - 1] == '\'') {
        slice_text(&chars, 1, count - 1)
    } else {
        value
    }
}

/// The name and value that a line of a `.env` file assigns. Blank lines, comments and lines
/// without a name or without `=` assign nothing.
pub open spec fn dotenv_entry(line: Seq<char>) -> Option<(Seq<char>, Seq<char>)> {
    let content = trim(line);
    match find_char(content, '=', 0) {
        Some(at) => {
            let name = trim(content.take(at));
            if content.len() == 0 || content.first() == '#' || name.len() == 0 {
                None
            } else {
                Some((name, unquoted(trim(content.skip(at + 1)))))
            }
        },
        None => None,
    }
}

/// The name and value that a line of a `.env` file assigns.
pub fn parse_dotenv_line(line: &str) -> (r: Option<(String, String)>)
    ensures
        r.deep_view() == dotenv_entry(line@),
{
    let content = trimmed(line);
    let chars = to_chars(content.as_str());
    if chars.len() == 0 || chars[0] == '#' {
        return None;
    }
    match position_of_char(&chars, '=', 0) {
        Some(at) => {
            let left = slice_text(&chars, 0, at);
            let right = slice_text(&chars, at + 1, chars.len());
            assert(left@ =~= content@.take(at as int));
            assert(right@ =~= content@.skip(at + 1));
            let name = trimmed(left.as_str());
            if name.as_str().is_empty() {
                None
            } else {
                Some((name, parse_dotenv_value(right.as_str())))
            }
        },
        None => None,
    }
}

/// Whether a list of assignments assigns a name.
pub open spec fn assigns(assignments: Seq<(Seq<char>, Seq<char>)>, name: Seq<char>) -> bool {
    exists|k: int| 0 <= k < assignments.len() && (#[trigger] assignments[k]).0 == name
}

/// The assignments of the lines of a `.env` file: of each name the first, and none of a name that
/// is set already.
pub open spec fn dotenv_assignments(lines: Seq<Seq<char>>, set: Seq<Seq<char>>) -> Seq<
    (Seq<char>, Seq<char>),
>
    decreases lines.len(),
{
    if lines.len() == 0 {
        Seq::empty()
    } else {
        let before = dotenv_assignments(lines.drop_last(), set);
        match dotenv_entry(lines.last()) {
            Some(entry) => if set.contains(entry.0) || assigns(before, entry.0) {
                before
            } else {
                before.push(entry)
            },
            None => before,
        }
    }
}

/// Whether a list of assignments assigns a name.
fn is_assigned(assignments: &Vec<(String, String)>, name: &str) -> (r: bool)
    ensures
        r == assigns(assignments.deep_view(), name@),
{
    let mut i: usize = 0;
    while i < assignments.len()
        invariant
            i <= assignments.len(),
            forall|k: int|
                0 <= k < i ==> (#[trigger] assignments.deep_view()[k]).0 != name@,
        decreases assignments.len() - i,
    {
        if same_text(assignments[i].0.as_str(), name) {
            assert(assignments.deep_view()[i as int].0 == name@);
            return true;
        }
        assert(assignments.deep_view()[i as int].0 == assignments@[i as int].0@);
        i += 1;
    }
    false
}

/// What a `.env` file sets: of each name the first assignment, and none of a name in `set`.
pub fn load_development_dotenv(raw: &str, set: &Vec<String>) -> (r: Vec<(String, String)>)
    ensures
        r.deep_view() == dotenv_assignments(lines(raw@), set.deep_view()),
{
    let parts = split_lines(raw);
    let ghost all = parts.deep_view();
    let mut out: Vec<(String, String)> = Vec::new();
    let mut i: usize = 0;
    assert(out.deep_view() =~= dotenv_assignments(all.take(0), set.deep_view()));
    while i < parts.len()
        invariant
            i <= parts.len(),
            all == parts.deep_view(),
            out.deep_view() == dotenv_assignments(all.take(i as int), set.deep_view()),
        decreases parts.len() - i,
    {
        assert(all.take(i + 1).drop_last() =~= all.take(i as int));
        assert(all.take(i + 1).last() == parts@[i as int]@);
        let ghost before = out.deep_view();
        if let Some(entry) = parse_dotenv_line(parts[i].as_str()) {
            if !contains_text(set, entry.0.as_str()) && !is_assigned(&out, entry.0.as_str()) {
                out.push(entry);
                assert(out.deep_view() =~= before.push(entry.deep_view()));
            }
        }
        i += 1;
    }
    assert(all.take(i as int) =~= all);
    out
}

/// A `.env` file never sets a name twice, nor one that is set already.
pub proof fn law_dotenv_sets_once(lines: Seq<Seq<char>>, set: Seq<Seq<char>>)
    ensures
        forall|i: int|
            0 <= i < dotenv_assignments(lines, set).len() ==> !set.contains(
                (#[trigger] dotenv_assignments(lines, set)[i]).0,
            ),
        forall|i: int, j: int|
            0 <= i < j < dotenv_assignments(lines, set).len()
                ==> (#[trigger] dotenv_assignments(lines, set)[i]).0
                != (#[trigger] dotenv_assignments(lines, set)[j]).0,
    decreases lines.len(),
{
    if lines.len() > 0 {
        law_dotenv_sets_once(lines.drop_last(), set);
        let before = dotenv_assignments(lines.drop_last(), set);
        let after = dotenv_assignments(lines, set);
        if after.len() > before.len() {
            assert forall|i: int| 0 <= i < before.len() implies (#[trigger] after[i]).0
                != after.last().0 by {
                assert(after[i] == before[i]);
            }
        }
    }
}

/// What the environment gets at the start: GTK is asked to use Wayland where there is Wayland, and
/// to draw by Cairo under Hyprland, unless the user chose otherwise.
pub fn configure_startup_environment(
    has_wayland: bool,
    on_hyprland: bool,
    backend_chosen: bool,
    renderer_chosen: bool,
) -> (r: Vec<(&'static str, &'static str)>)
    ensures
        r.deep_view() == (if has_wayland && !backend_chosen {
            seq![("GDK_BACKEND"@, "wayland"@)]
        } else {
            Seq::<(Seq<char>, Seq<char>)>::empty()
        }) + (if on_hyprland && !renderer_chosen {
            seq![("GSK_RENDERER"@, "cairo"@)]
        } else {
            Seq::<(Seq<char>, Seq<char>)>::empty()
        }),
{
    let mut out: Vec<(&'static str, &'static str)> = Vec::new();
    if has_wayland && !backend_chosen {
        out.push(("GDK_BACKEND", "wayland"));
    }
    let ghost first = out.deep_view();
    assert(first =~= if has_wayland && !backend_chosen {
        seq![("GDK_BACKEND"@, "wayland"@)]
    } else {
        Seq::<(Seq<char>, Seq<char>)>::empty()
    });
    if on_hyprland && !renderer_chosen {
        out.push(("GSK_RENDERER", "cairo"));
        assert(out.deep_view() =~= first + seq![("GSK_RENDERER"@, "cairo"@)]);
    } else {
        assert(out.deep_view() =~= first + Seq::<(Seq<char>, Seq<char>)>::empty());
    }
    out
}

/// The variables that configure the connection to Slack.
pub open spec fn slack_variables() -> Seq<Seq<char>> {
    seq![
        CLIENT_ID_ENV@,
        CLIENT_SECRET_ENV@,
        REDIRECT_URI_ENV@,
        USER_SCOPES_ENV@,
        SLACK_APP_TOKEN_ENV@,
    ]
}

/// The variables that configure the connection to Slack.
pub fn slack_env_keys() -> (r: Vec<String>)
    ensures
        r.deep_view() == slack_variables(),
{
    let keys = vec![
        owned(CLIENT_ID_ENV),
        owned(CLIENT_SECRET_ENV),
        owned(REDIRECT_URI_ENV),
        owned(USER_SCOPES_ENV),
        owned(SLACK_APP_TOKEN_ENV),
    ];
    assert(keys.deep_view() =~= slack_variables());
    keys
}

/// A value without the white space around it, if there is anything else.
pub open spec fn stored_value(value: Option<Seq<char>>) -> Option<Seq<char>> {
    match value {
        Some(value) => trimmed_non_blank(value),
        None => None,
    }
}

/// What becomes of a variable: nothing if it is locked, else it is set to the stored value, or
/// removed if there is none.
pub open spec fn variable_change(
    key: Seq<char>,
    value: Option<Seq<char>>,
    locked: Seq<Seq<char>>,
) -> Seq<(Seq<char>, Option<Seq<char>>)> {
    if locked.contains(key) {
        Seq::empty()
    } else {
        seq![(key, stored_value(value))]
    }
}

/// What becomes of the variables of the connection.
pub open spec fn variable_changes(slack: SlackConfigSettingsModel, locked: Seq<Seq<char>>) -> Seq<
    (Seq<char>, Option<Seq<char>>),
> {
    variable_change(CLIENT_ID_ENV@, slack.client_id, locked) + variable_change(
        CLIENT_SECRET_ENV@,
        slack.client_secret,
        locked,
    ) + variable_change(REDIRECT_URI_ENV@, slack.redirect_uri, locked) + variable_change(
        USER_SCOPES_ENV@,
        slack.user_scopes,
        locked,
    ) + variable_change(SLACK_APP_TOKEN_ENV@, slack.app_token, locked)
}

/// A variable that was set from outside is never changed by what is saved.
pub proof fn law_outside_variables_stay(
    slack: SlackConfigSettingsModel,
    locked: Seq<Seq<char>>,
    i: int,
)
    requires
        0 <= i < variable_changes(slack, locked).len(),
    ensures
        !locked.contains(variable_changes(slack, locked)[i].0),
{
    let one = variable_change(CLIENT_ID_ENV@, slack.client_id, locked);
    let two = one + variable_change(CLIENT_SECRET_ENV@, slack.client_secret, locked);
    let three = two + variable_change(REDIRECT_URI_ENV@, slack.redirect_uri, locked);
    let four = three + variable_change(USER_SCOPES_ENV@, slack.user_scopes, locked);
    assert(forall|k: int| 0 <= k < one.len() ==> !locked.contains((#[trigger] one[k]).0));
    assert(forall|k: int| 0 <= k < two.len() ==> !locked.contains((#[trigger] two[k]).0));
    assert(forall|k: int| 0 <= k < three.len() ==> !locked.contains((#[trigger] three[k]).0));
    assert(forall|k: int| 0 <= k < four.len() ==> !locked.contains((#[trigger] four[k]).0));
}

/// Adds what becomes of a variable.
fn sync_setting_env_value(
    changes: &mut Vec<(String, Option<String>)>,
    key: &str,
    value: &Option<String>,
    locked_keys: &TextSet,
)
    ensures
        final(changes).deep_view() == old(changes).deep_view() + variable_change(
            key@,
            value.deep_view(),
            locked_keys.deep_view(),
        ),
{
    let ghost before = changes.deep_view();
    if !locked_keys.contains(key) {
        let value = match value {
            Some(value) => non_blank(value.as_str()),
            None => None,
        };
        let change = (owned(key), value);
        changes.push(change);
        assert(changes.deep_view() =~= before + seq![change.deep_view()]);
    } else {
        assert(changes.deep_view() =~= before + Seq::<(Seq<char>, Option<Seq<char>>)>::empty());
    }
}

/// What becomes of the variables when the settings change: those the user set from outside are
/// locked and stay, the others follow the settings. A value of `None` removes the variable.
pub fn sync_settings_env(settings: &AppSettings, locked_keys: &TextSet) -> (r: Vec<
    (String, Option<String>),
>)
    ensures
        r.deep_view() == variable_changes(settings.deep_view().slack, locked_keys.deep_view()),
{
    let mut changes: Vec<(String, Option<String>)> = Vec::new();
    let ghost start = changes.deep_view();
    assert(start =~= Seq::<(Seq<char>, Option<Seq<char>>)>::empty());
    sync_setting_env_value(&mut changes, CLIENT_ID_ENV, &settings.slack.client_id, locked_keys);
    assert(changes.deep_view() =~= variable_change(
        CLIENT_ID_ENV@,
        settings.deep_view().slack.client_id,
        locked_keys.deep_view(),
    ));
    sync_setting_env_value(
        &mut changes,
        CLIENT_SECRET_ENV,
        &settings.slack.client_secret,
        locked_keys,
    );
    sync_setting_env_value(
        &mut changes,
        REDIRECT_URI_ENV,
        &settings.slack.redirect_uri,
        locked_keys,
    );
    sync_setting_env_value(&mut changes, USER_SCOPES_ENV, &settings.slack.user_scopes, locked_keys);
    sync_setting_env_value(&mut changes, SLACK_APP_TOKEN_ENV, &settings.slack.app_token, locked_keys);
    changes
}

/// What a field of the connection shows: the variable's value if it is set, else the stored one.
pub fn resolved_slack_config_value(env_value: Option<&str>, stored: &Option<String>) -> (r: String)
    ensures
        r@ == match env_value {
            Some(value) => value@,
            None => match stored_value(stored.deep_view()) {
                Some(value) => value,
                None => Seq::empty(),
            },
        },
{
    if let Some(value) = env_value {
        return owned(value);
    }
    if let Some(value) = stored {
        if let Some(value) = non_blank(value.as_str()) {
            return value;
        }
    }
    String::new()
}

/// What the user typed into a field, without the white space around it, if there is anything else.
pub fn normalized_entry_value(value: &str) -> (r: Option<String>)
    ensures
        r.deep_view() == trimmed_non_blank(value@),
{
    non_blank(value)
}

/// The settings to start with: those that were saved, else the default ones, and over them what
/// the configuration file says.
pub fn settings_at_start(saved: Option<AppSettings>, patch: Option<AppSettingsPatch>) -> (r:
    AppSettings)
    ensures
        r.deep_view() == ({
            let base = match saved {
                Some(saved) => saved.deep_view(),
                None => default_settings(),
            };
            match patch {
                Some(patch) => base.patched(patch.deep_view()),
                None => base,
            }
        }),
{
    let mut settings = match saved {
        Some(saved) => saved,
        None => AppSettings::default(),
    };
    if let Some(patch) = patch {
        settings.apply_patch(patch);
    }
    settings
}

/// Items that were never sent to Slack: an old version kept replies under this author.
pub open spec fn is_local_only() -> spec_fn(TimelineItemModel) -> bool {
    |item: TimelineItemModel| item.author_id == "U-me"@
}

/// Whether an item was never sent to Slack.
pub fn is_legacy_local_only_item(item: &TimelineItem) -> (r: bool)
    ensures
        r == is_local_only()(item.deep_view()),
{
    same_text(item.author_id.as_str(), "U-me")
}

/// Tests for items that were sent to Slack.
pub struct Shared;

impl ItemTest for Shared {
    open spec fn condition(&self) -> spec_fn(TimelineItemModel) -> bool {
        crate::items::not(is_local_only())
    }

    fn holds(&self, item: &TimelineItem) -> bool {
        !is_legacy_local_only_item(item)
    }
}

/// Takes the items out that were never sent to Slack, and says how many they were.
pub fn remove_legacy_items(items: &mut Vec<TimelineItem>) -> (removed: usize)
    ensures
        final(items).deep_view() == old(items).deep_view().filter(
            crate::items::not(is_local_only()),
        ),
        removed == old(items).len() - final(items).len(),
{
    let before: usize = items.len();
    let ghost all = items.deep_view();
    retain_items(items, &Shared);
    proof {
        broadcast use vstd::seq_lib::group_filter_ensures;

        all.lemma_filter_len(crate::items::not(is_local_only()));
    }
    before - items.len()
}

/// What the user is told after the start.
pub open spec fn status_at_start(
    issues: Seq<Seq<char>>,
    startup_message: Seq<char>,
    items: nat,
    db_path: Option<Seq<char>>,
    removed: nat,
    seeded: bool,
    config_path: Option<Seq<char>>,
) -> Seq<char> {
    let loaded = if issues.len() > 0 {
        "Store fallback: "@ + join(issues, " | "@) + "\n"@ + startup_message
    } else if items == 0 {
        "Local cache is empty.\n"@ + startup_message
    } else {
        match db_path {
            Some(path) => "Loaded "@ + decimal(items) + " cached items from "@ + path + "."@,
            None => startup_message,
        }
    };
    let cleaned = if removed > 0 {
        "Removed "@ + decimal(removed) + " legacy local replies.\n"@ + loaded
    } else {
        loaded
    };
    let ready = if seeded {
        "Seeded default notification rules.\n"@ + cleaned
    } else {
        cleaned
    };
    match config_path {
        Some(path) => "Loaded config overlay from "@ + path + ".\n"@ + ready,
        None => ready,
    }
}

/// What the user is told after the start: what went wrong, else how much is cached, after what was
/// cleaned up, seeded and overlaid.
pub fn startup_status(
    issues: &Vec<String>,
    startup_message: &str,
    items: usize,
    db_path: Option<&str>,
    removed: usize,
    seeded: bool,
    config_path: Option<&str>,
) -> (r: String)
    ensures
        r@ == status_at_start(
            issues.deep_view(),
            startup_message@,
            items as nat,
            db_path.deep_view(),
            removed as nat,
            seeded,
            config_path.deep_view(),
        ),
{
    let mut status = if issues.len() > 0 {
        let mut out = enclosed("Store fallback: ", join_texts(issues, " | ").as_str(), "\n");
        out.append(startup_message);
        out
    } else if items == 0 {
        labelled("Local cache is empty.\n", startup_message)
    } else {
        match db_path {
            Some(path) => {
                let mut out = enclosed(
                    "Loaded ",
                    to_decimal(items as u64).as_str(),
                    " cached items from ",
                );
                out.append(path);
                out.append(".");
                out
            },
            None => owned(startup_message),
        }
    };
    if removed > 0 {
        let head = enclosed(
            "Removed ",
            to_decimal(removed as u64).as_str(),
            " legacy local replies.\n",
        );
        status = labelled(head.as_str(), status.as_str());
    }
    if seeded {
        status = labelled("Seeded default notification rules.\n", status.as_str());
    }
    if let Some(path) = config_path {
        let head = enclosed("Loaded config overlay from ", path, ".\n");
        status = labelled(head.as_str(), status.as_str());
    }
    status
}

/// How a workspace with a session is listed.
pub fn workspace_profile_from_session(workspace_key: &str, session: &StoredSlackSession) -> (r:
    WorkspaceProfile)
    ensures
        r.deep_view() == (WorkspaceProfileModel {
            key: workspace_key@,
            label: match (session.deep_view().team_name, session.deep_view().team_id) {
                (Some(name), _) => name,
                (None, Some(id)) => id,
                (None, None) => "Slack room"@,
            },
            team_id: session.deep_view().team_id,
            team_name: session.deep_view().team_name,
            app_id: session.deep_view().app_id,
        }),
{
    let copy = session.clone();
    let label = match (&session.team_name, &session.team_id) {
        (Some(name), _) => name.clone(),
        (None, Some(id)) => id.clone(),
        (None, None) => owned("Slack room"),
    };
    WorkspaceProfile {
        key: owned(workspace_key),
        label,
        team_id: copy.team_id,
        team_name: copy.team_name,
        app_id: copy.app_id,
    }
}

/// The name of the program's own directories.
pub const APP_DIR_NAME: &'static str = "slaxide";

/// What a directory is below.
#[derive(Clone, Copy, Debug, PartialEq, Eq, Structural)]
pub enum DirBase {
    /// The directory that the environment names for its kind.
    Given,
    /// The user's home.
    Home,
}

/// A directory of the user's.
#[derive(Debug, PartialEq, Eq)]
pub struct UserDir {
    pub base: DirBase,
    /// The path below the base.
    pub path: String,
}

/// The directory of the program: below the one that the environment names, or at its usual place
/// below the user's home; nowhere if neither is known.
pub open spec fn own_dir(given: bool, home: bool, usual: Seq<char>) -> Option<(
    DirBase,
    Seq<char>,
)> {
    if given {
        Some((DirBase::Given, APP_DIR_NAME@))
    } else if home {
        Some((DirBase::Home, usual + "/"@ + APP_DIR_NAME@))
    } else {
        None
    }
}

/// Whether a directory is the one meant.
pub open spec fn is_dir(dir: UserDir, meant: Option<(DirBase, Seq<char>)>) -> bool {
    meant == Some((dir.base, dir.path@))
}

/// The directory of the program, if the environment names one for its kind (`given`) or the
/// user's home.
pub fn xdg_dir(given: bool, home: bool, usual: &str) -> (r: Result<UserDir, String>)
    ensures
        match r {
            Ok(dir) => is_dir(dir, own_dir(given, home, usual@)),
            Err(message) => own_dir(given, home, usual@) is None && message@ == "HOME is not set"@,
        },
{
    if given {
        return Ok(UserDir { base: DirBase::Given, path: owned(APP_DIR_NAME) });
    }
    if home {
        let mut path = owned(usual);
        path.append("/");
        path.append(APP_DIR_NAME);
        return Ok(UserDir { base: DirBase::Home, path });
    }
    Err(owned("HOME is not set"))
}

/// Where the program keeps its files.
#[derive(Debug, PartialEq, Eq)]
pub struct AppPaths {
    pub config_dir: UserDir,
    pub data_dir: UserDir,
    pub cache_dir: UserDir,
}

impl AppPaths {
    /// Where the program keeps its files, from which of the user's directories the environment
    /// names.
    pub fn discover(config: bool, data: bool, cache: bool, home: bool) -> (r: Result<
        AppPaths,
        String,
    >)
        ensures
            r is Ok <==> home || (config && data && cache),
            match r {
                Ok(paths) => {
                    &&& is_dir(paths.config_dir, own_dir(config, home, ".config"@))
                    &&& is_dir(paths.data_dir, own_dir(data, home, ".local/share"@))
                    &&& is_dir(paths.cache_dir, own_dir(cache, home, ".cache"@))
                },
                Err(message) => message@ == "HOME is not set"@,
            },
    {
        let config_dir = match xdg_dir(config, home, ".config") {
            Ok(dir) => dir,
            Err(message) => {
                return Err(message);
            },
        };
        let data_dir = match xdg_dir(data, home, ".local/share") {
            Ok(dir) => dir,
            Err(message) => {
                return Err(message);
            },
        };
        let cache_dir = match xdg_dir(cache, home, ".cache") {
            Ok(dir) => dir,
            Err(message) => {
                return Err(message);
            },
        };
        Ok(AppPaths { config_dir, data_dir, cache_dir })
    }
}

/// The start of the program as far as it went: what was read, and what went wrong.
#[derive(Debug)]
pub struct Startup {
    pub settings: AppSettings,
    pub items: Vec<TimelineItem>,
    /// What went wrong, for the user.
    pub issues: Vec<String>,
    /// How many items were taken out because they were never sent to Slack.
    pub removed: usize,
    /// Whether rules for notifications were filled in.
    pub seeded: bool,
    /// Whether the configuration file was read.
    pub overlaid: bool,
}

/// A list with the complaint added that something failed, if it did.
pub open spec fn complaint<T>(label: Seq<char>, result: Result<T, String>) -> Seq<Seq<char>> {
    match result {
        Ok(_) => Seq::empty(),
        Err(error) => seq![label + error@],
    }
}

fn add_issue(issues: &mut Vec<String>, label: &str, error: &str)
    ensures
        final(issues).deep_view() == old(issues).deep_view() + seq![label@ + error@],
{
    let ghost before = issues.deep_view();
    issues.push(labelled(label, error));
    assert(issues.deep_view() =~= before + seq![label@ + error@]);
}

impl Startup {
    /// The start of a program that keeps nothing on disk.
    pub fn in_memory() -> (r: Self)
        ensures
            r.settings.deep_view() == default_settings(),
            r.items.deep_view().len() == 0,
            r.issues.deep_view().len() == 0,
            r.removed == 0 && !r.seeded && !r.overlaid,
    {
        Startup {
            settings: AppSettings::default(),
            items: Vec::new(),
            issues: Vec::new(),
            removed: 0,
            seeded: false,
            overlaid: false,
        }
    }

    /// The saved settings and the configuration file were read, or failed to be.
    pub fn read(
        saved: Result<Option<AppSettings>, String>,
        patch: Result<Option<AppSettingsPatch>, String>,
    ) -> (r: Self)
        ensures
            r.settings.deep_view() == ({
                let base = match saved {
                    Ok(Some(settings)) => settings.deep_view(),
                    _ => default_settings(),
                };
                match patch {
                    Ok(Some(patch)) => base.patched(patch.deep_view()),
                    _ => base,
                }
            }),
            r.issues.deep_view() == complaint("settings read failed: "@, saved) + complaint(
                "config.toml read failed: "@,
                patch,
            ),
            r.items.deep_view().len() == 0,
            r.removed == 0 && !r.seeded,
            r.overlaid == (patch matches Ok(Some(_))),
    {
        let mut issues: Vec<String> = Vec::new();
        assert(issues.deep_view() =~= Seq::empty());
        let saved = match saved {
            Ok(saved) => saved,
            Err(error) => {
                add_issue(&mut issues, "settings read failed: ", error.as_str());
                None
            },
        };
        let patch = match patch {
            Ok(patch) => patch,
            Err(error) => {
                add_issue(&mut issues, "config.toml read failed: ", error.as_str());
                None
            },
        };
        let overlaid = patch.is_some();
        Startup {
            settings: settings_at_start(saved, patch),
            items: Vec::new(),
            issues,
            removed: 0,
            seeded: false,
            overlaid,
        }
    }

    /// The cached items were read, or failed to be; true if some were taken out, so that the rest
    /// is written back.
    pub fn timeline_read(&mut self, cached: Result<Vec<TimelineItem>, String>) -> (cleans: bool)
        requires
            old(self).items.deep_view().len() == 0,
            old(self).removed == 0,
        ensures
            final(self).settings == old(self).settings,
            final(self).seeded == old(self).seeded,
            final(self).overlaid == old(self).overlaid,
            final(self).issues.deep_view() == old(self).issues.deep_view() + complaint(
                "timeline read failed: "@,
                cached,
            ),
            match cached {
                Ok(items) => {
                    &&& final(self).items.deep_view() == items.deep_view().filter(
                        crate::items::not(is_local_only()),
                    )
                    &&& final(self).removed == items.len() - final(self).items.len()
                },
                Err(_) => final(self).items.deep_view().len() == 0 && final(self).removed == 0,
            },
            cleans == (final(self).removed > 0),
    {
        match cached {
            Ok(items) => {
                let mut kept = items;
                self.removed = remove_legacy_items(&mut kept);
                self.items = kept;
                assert(self.issues.deep_view() + Seq::<Seq<char>>::empty()
                    =~= self.issues.deep_view());
            },
            Err(error) => {
                add_issue(&mut self.issues, "timeline read failed: ", error.as_str());
            },
        }
        self.removed > 0
    }

    /// What is left of the cached items could not be written back.
    pub fn cleanup_failed(&mut self, error: &str)
        ensures
            final(self).issues.deep_view() == old(self).issues.deep_view() + seq![
                "timeline cleanup failed: "@ + error@,
            ],
            final(self).settings == old(self).settings,
            final(self).items == old(self).items,
            final(self).removed == old(self).removed,
            final(self).seeded == old(self).seeded,
            final(self).overlaid == old(self).overlaid,
    {
        add_issue(&mut self.issues, "timeline cleanup failed: ", error);
    }

    /// Fills in rules for notifications where there are none; true if the settings are written to
    /// disk for that.
    pub fn seed_rules(&mut self, id: RuleId) -> (saves: bool)
        ensures
            saves == crate::notify::needs_seeding(
                old(self).settings.deep_view().notification_rules,
            ),
            final(self).settings.deep_view() == (AppSettingsModel {
                notification_rules: crate::notify::seeded_rules(
                    old(self).settings.deep_view().notification_rules,
                    id,
                ),
                ..old(self).settings.deep_view()
            }),
            final(self).seeded == saves,
            final(self).items == old(self).items,
            final(self).issues == old(self).issues,
            final(self).removed == old(self).removed,
            final(self).overlaid == old(self).overlaid,
    {
        self.seeded = crate::notify::seed_default_notification_rules(&mut self.settings, id);
        self.seeded
    }

    /// The rules that were filled in could not be written to disk.
    pub fn seeding_failed(&mut self, error: &str)
        ensures
            final(self).issues.deep_view() == old(self).issues.deep_view() + seq![
                "notification rule seed failed: "@ + error@,
            ],
            final(self).settings == old(self).settings,
            final(self).items == old(self).items,
            final(self).removed == old(self).removed,
            final(self).seeded == old(self).seeded,
            final(self).overlaid == old(self).overlaid,
    {
        add_issue(&mut self.issues, "notification rule seed failed: ", error);
    }

    /// The state to start with, and what the user is told. `config_path` is where the
    /// configuration file is.
    pub fn finish(
        self,
        startup_message: &str,
        db_path: Option<&str>,
        config_path: Option<&str>,
        now: Timestamp,
    ) -> (r: (UiState, String))
        ensures
            r.0.deep_view() == crate::state::initial_state(
                self.settings.deep_view(),
                self.items.deep_view(),
                Seq::empty(),
                Seq::empty(),
                Seq::empty(),
                Seq::empty(),
            ).reranked(now, true),
            r.1@ == status_at_start(
                self.issues.deep_view(),
                startup_message@,
                self.items.len() as nat,
                db_path.deep_view(),
                self.removed as nat,
                self.seeded,
                if self.overlaid {
                    config_path.deep_view()
                } else {
                    None
                },
            ),
    {
        let shown_path = if self.overlaid {
            config_path
        } else {
            None
        };
        let status = startup_status(
            &self.issues,
            startup_message,
            self.items.len(),
            db_path,
            self.removed,
            self.seeded,
            shown_path,
        );
        let state = UiState::new(
            self.settings,
            self.items,
            TextMap::new(),
            TextMap::new(),
            TextMap::new(),
            TextMap::new(),
            now,
        );
        (state, status)
    }
}

} // verus!
