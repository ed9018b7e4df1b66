//! Updates and removal of an installation that its installer manages.

use crate::desktop_misc::DirBelow;
use crate::json::{fields, items, no_fields, opt_str, put, set_field, str_field, strs, Json, JsonV};
use crate::text::{dec, decimal, opt_text, or_empty, same, text_or_empty, texts, trim, trimmed};
use vstd::prelude::*;

verus! {

// ---------------------------------------------------------------------------
// The data home
// ---------------------------------------------------------------------------

/// A variable that is set to more than white space.
pub open spec fn filled(o: Option<Seq<char>>) -> bool {
    o is Some && trimmed(o->0).len() > 0
}

fn is_filled(o: &Option<String>) -> (r: bool)
    ensures
        r == filled(opt_text(*o)),
{
    match o {
        Some(s) => !trim(s).as_str().is_empty(),
        None => false,
    }
}

/// The directory of the agent's data: the override, else `hermes` below the local
/// application data on Windows, `.hermes` below the home elsewhere. A blank
/// variable counts as unset.
pub open spec fn data_home_of(
    over: Option<Seq<char>>,
    windows: bool,
    local_app_data: Option<Seq<char>>,
    user_profile: Option<Seq<char>>,
    home: Option<Seq<char>>,
) -> (Seq<char>, Seq<Seq<char>>) {
    if filled(over) {
        (over->0, Seq::empty())
    } else if windows {
        if filled(local_app_data) {
            (local_app_data->0, seq!["hermes"@])
        } else {
            (
                match user_profile {
                    Some(p) => p,
                    None => or_empty(home),
                },
                seq!["AppData"@, "Local"@, "hermes"@],
            )
        }
    } else {
        (or_empty(home), seq![".hermes"@])
    }
}

pub fn hermes_home(
    over: &Option<String>,
    windows: bool,
    local_app_data: &Option<String>,
    user_profile: &Option<String>,
    home: &Option<String>,
) -> (r: DirBelow)
    ensures
        (r.base@, texts(r.below@)) == data_home_of(
            opt_text(*over),
            windows,
            opt_text(*local_app_data),
            opt_text(*user_profile),
            opt_text(*home),
        ),
{
    let mut below: Vec<String> = Vec::new();
    assert(texts(below@) =~= Seq::<Seq<char>>::empty());
    if is_filled(over) {
        return DirBelow { base: text_or_empty(over), below };
    }
    if !windows {
        below.push(".hermes".to_string());
        assert(texts(below@) =~= seq![".hermes"@]);
        return DirBelow { base: text_or_empty(home), below };
    }
    if is_filled(local_app_data) {
        below.push("hermes".to_string());
        assert(texts(below@) =~= seq!["hermes"@]);
        return DirBelow { base: text_or_empty(local_app_data), below };
    }
    below.push("AppData".to_string());
    below.push("Local".to_string());
    below.push("hermes".to_string());
    assert(texts(below@) =~= seq!["AppData"@, "Local"@, "hermes"@]);
    let base = match user_profile {
        Some(p) => p.clone(),
        None => text_or_empty(home),
    };
    DirBelow { base, below }
}

// ---------------------------------------------------------------------------
// The update channel
// ---------------------------------------------------------------------------

/// The channel that a file holds; `stable` unless it holds a known one. `stored`
/// is the value of the file, when it has one.
pub open spec fn branch_of(stored: Option<JsonV>) -> Seq<char> {
    match stored {
        Some(j) => match str_field(j, "branch"@) {
            Some(b) => if b == "nightly"@ {
                b
            } else {
                "stable"@
            },
            None => "stable"@,
        },
        None => "stable"@,
    }
}

pub fn read_branch(stored: &Option<Json>) -> (r: String)
    ensures
        r@ == branch_of(
            match *stored {
                Some(j) => Some(j@),
                None => None,
            },
        ),
{
    if let Some(j) = stored {
        if let Some(b) = j.get_str("branch") {
            if same(&b, "nightly") {
                return b;
            }
        }
    }
    "stable".to_string()
}

/// A channel as it is stored, and as it is answered.
pub open spec fn branch_json(b: Seq<char>) -> JsonV {
    JsonV::Obj(put(no_fields(), "branch"@, JsonV::Str(b)))
}

/// The channel that a name stands for.
pub open spec fn chosen_branch(name: Seq<char>) -> Seq<char> {
    if trimmed(name) == "nightly"@ {
        "nightly"@
    } else {
        "stable"@
    }
}

fn write_branch(b: &str) -> (r: Json)
    ensures
        r@ == branch_json(b@),
{
    broadcast use crate::json::group_json_views;

    let mut o: Vec<(String, Json)> = Vec::new();
    assert(fields(o@) =~= no_fields());
    set_field(&mut o, "branch", Json::text(b));
    Json::Obj(o)
}

pub fn updates_get_branch(stored: &Option<Json>) -> (r: Json)
    ensures
        r@ == branch_json(
            branch_of(
                match *stored {
                    Some(j) => Some(j@),
                    None => None,
                },
            ),
        ),
{
    write_branch(&read_branch(stored))
}

/// What is stored, and answered, for a chosen channel.
pub fn updates_set_branch(name: &str) -> (r: Json)
    ensures
        r@ == branch_json(chosen_branch(name@)),
{
    if same(&trim(name), "nightly") {
        write_branch("nightly")
    } else {
        write_branch("stable")
    }
}

/// A channel that was chosen is the one that is read back.
pub proof fn law_chosen_channel_is_read_back(name: Seq<char>)
    ensures
        branch_of(Some(branch_json(chosen_branch(name)))) == chosen_branch(name),
{
    crate::json::lemma_lookup_put(
        no_fields(),
        "branch"@,
        JsonV::Str(chosen_branch(name)),
        "branch"@,
    );
}

// ---------------------------------------------------------------------------
// Updating
// ---------------------------------------------------------------------------

/// A count as a JSON number.
pub open spec fn count_json(n: nat) -> JsonV {
    if n <= i64::MAX {
        JsonV::Int(n as i64)
    } else {
        JsonV::Decimal(dec(n))
    }
}

fn write_count(n: u64) -> (r: Json)
    ensures
        r@ == count_json(n as nat),
{
    broadcast use crate::json::group_json_views;

    if n <= 0x7fff_ffff_ffff_ffff {
        Json::Int(n as i64)
    } else {
        Json::Decimal(decimal(n as u128))
    }
}

/// The answer to a check: the installer updates this build.
pub open spec fn check_json(fetched_at: nat) -> JsonV {
    let o = put(no_fields(), "supported"@, JsonV::Bool(false));
    let o = put(o, "reason"@, JsonV::Str("installer-managed"@));
    let o = put(
        o,
        "message"@,
        JsonV::Str(
            "This desktop build ships its Hermes runtime inside its installer. Install a new build to update the app and its bundled backend."@,
        ),
    );
    JsonV::Obj(put(o, "fetchedAt"@, count_json(fetched_at)))
}

/// `now_ms` is the time in milliseconds.
pub fn updates_check(now_ms: u64) -> (r: Json)
    ensures
        r@ == check_json(now_ms as nat),
{
    broadcast use crate::json::group_json_views;

    let mut o: Vec<(String, Json)> = Vec::new();
    assert(fields(o@) =~= no_fields());
    set_field(&mut o, "supported", Json::Bool(false));
    set_field(&mut o, "reason", Json::text("installer-managed"));
    set_field(
        &mut o,
        "message",
        Json::text(
            "This desktop build ships its Hermes runtime inside its installer. Install a new build to update the app and its bundled backend.",
        ),
    );
    set_field(&mut o, "fetchedAt", write_count(now_ms));
    Json::Obj(o)
}

/// The answer to a request to update in place.
pub open spec fn apply_json() -> JsonV {
    let o = put(no_fields(), "ok"@, JsonV::Bool(false));
    let o = put(o, "error"@, JsonV::Str("installer-managed"@));
    JsonV::Obj(
        put(
            o,
            "message"@,
            JsonV::Str(
                "This desktop build updates through its installer — download and run the new MSI to update the app and its bundled backend."@,
            ),
        ),
    )
}

pub fn updates_apply() -> (r: Json)
    ensures
        r@ == apply_json(),
{
    broadcast use crate::json::group_json_views;

    let mut o: Vec<(String, Json)> = Vec::new();
    assert(fields(o@) =~= no_fields());
    set_field(&mut o, "ok", Json::Bool(false));
    set_field(&mut o, "error", Json::text("installer-managed"));
    set_field(
        &mut o,
        "message",
        Json::text(
            "This desktop build updates through its installer — download and run the new MSI to update the app and its bundled backend.",
        ),
    );
    Json::Obj(o)
}

// ---------------------------------------------------------------------------
// Removal
// ---------------------------------------------------------------------------

/// What an installation owns on disk.
pub struct Inventory {
    pub hermes_home: String,
    pub bundled_backend: bool,
    pub install_dir: Option<String>,
    pub config_dir: String,
    pub config_exists: bool,
    pub platform: String,
    pub running_app: Option<String>,
}

pub open spec fn inventory_json(i: Inventory) -> JsonV {
    let o = put(no_fields(), "hermes_home"@, JsonV::Str(i.hermes_home@));
    let o = put(o, "agent_installed"@, JsonV::Bool(i.bundled_backend));
    let o = put(o, "gui_installed"@, JsonV::Bool(true));
    let o = put(o, "source_built_artifacts"@, JsonV::Arr(Seq::empty()));
    let o = put(
        o,
        "packaged_app_paths"@,
        strs(
            match opt_text(i.install_dir) {
                Some(d) => seq![d],
                None => Seq::empty(),
            },
        ),
    );
    let o = put(o, "userdata_dir"@, JsonV::Str(i.config_dir@));
    let o = put(o, "userdata_exists"@, JsonV::Bool(i.config_exists));
    let o = put(o, "platform"@, JsonV::Str(i.platform@));
    let o = put(o, "running_app_path"@, opt_str(opt_text(i.running_app)));
    JsonV::Obj(put(o, "probe"@, JsonV::Str("tauri"@)))
}

pub fn uninstall_summary(i: &Inventory) -> (r: Json)
    ensures
        r@ == inventory_json(*i),
{
    broadcast use crate::json::group_json_views;

    let none: Vec<Json> = Vec::new();
    assert(items(none@) =~= Seq::<JsonV>::empty());
    let mut dirs: Vec<String> = Vec::new();
    if let Some(d) = &i.install_dir {
        dirs.push(d.clone());
        assert(texts(dirs@) =~= seq![d@]);
    } else {
        assert(texts(dirs@) =~= Seq::<Seq<char>>::empty());
    }
    let mut o: Vec<(String, Json)> = Vec::new();
    assert(fields(o@) =~= no_fields());
    set_field(&mut o, "hermes_home", Json::text(&i.hermes_home));
    set_field(&mut o, "agent_installed", Json::Bool(i.bundled_backend));
    set_field(&mut o, "gui_installed", Json::Bool(true));
    set_field(&mut o, "source_built_artifacts", Json::Arr(none));
    set_field(&mut o, "packaged_app_paths", Json::from_texts(&dirs));
    set_field(&mut o, "userdata_dir", Json::text(&i.config_dir));
    set_field(&mut o, "userdata_exists", Json::Bool(i.config_exists));
    set_field(&mut o, "platform", Json::text(&i.platform));
    set_field(&mut o, "running_app_path", Json::from_opt(&i.running_app));
    set_field(&mut o, "probe", Json::text("tauri"));
    Json::Obj(o)
}

/// What a removal does before it answers.
pub struct Removal {
    /// Whether the backend is stopped and the data and settings are deleted.
    pub deletes_data: bool,
    pub answer: Json,
}

pub open spec fn removed_answer(mode: Seq<char>, message: Seq<char>) -> JsonV {
    let o = put(no_fields(), "ok"@, JsonV::Bool(true));
    let o = put(o, "mode"@, JsonV::Str(mode));
    JsonV::Obj(put(o, "message"@, JsonV::Str(message)))
}

pub open spec fn unknown_mode() -> JsonV {
    let o = put(no_fields(), "ok"@, JsonV::Bool(false));
    let o = put(o, "error"@, JsonV::Str("invalid-mode"@));
    JsonV::Obj(
        put(
            o,
            "message"@,
            JsonV::Str("Unknown uninstall mode. Use 'gui', 'lite' or 'full'."@),
        ),
    )
}

/// The application itself belongs to its installer in every mode; `lite` and
/// `full` delete the data.
pub open spec fn removal_of(mode: Option<Seq<char>>) -> (bool, JsonV) {
    let m = trimmed(or_empty(mode));
    if m == "gui"@ {
        (
            false,
            removed_answer(
                "gui"@,
                "The desktop app is installed by its MSI. Remove it through Windows Settings → Apps → Hermes (or by running the installer again), which also removes the bundled backend."@,
            ),
        )
    } else if m == "full"@ {
        (
            true,
            removed_answer(
                "full"@,
                "Hermes data has been removed. Finish the uninstall through Windows Settings → Apps → Hermes (or by running the MSI installer again) to remove the app and its bundled backend."@,
            ),
        )
    } else if m == "lite"@ {
        (
            true,
            removed_answer(
                "lite"@,
                "Hermes data (sessions, profiles, state) has been removed. The desktop app and its bundled backend are untouched."@,
            ),
        )
    } else {
        (false, unknown_mode())
    }
}

fn write_removed(mode: &str, message: &str) -> (r: Json)
    ensures
        r@ == removed_answer(mode@, message@),
{
    broadcast use crate::json::group_json_views;

    let mut o: Vec<(String, Json)> = Vec::new();
    assert(fields(o@) =~= no_fields());
    set_field(&mut o, "ok", Json::Bool(true));
    set_field(&mut o, "mode", Json::text(mode));
    set_field(&mut o, "message", Json::text(message));
    Json::Obj(o)
}

pub fn uninstall_run(mode: &Option<String>) -> (r: Removal)
    ensures
        (r.deletes_data, r.answer@) == removal_of(opt_text(*mode)),
{
    broadcast use crate::json::group_json_views;

    let m = trim(&text_or_empty(mode));
    if same(&m, "gui") {
        return Removal {
            deletes_data: false,
            answer: write_removed(
                "gui",
                "The desktop app is installed by its MSI. Remove it through Windows Settings → Apps → Hermes (or by running the installer again), which also removes the bundled backend.",
            ),
        };
    }
    if same(&m, "full") {
        return Removal {
            deletes_data: true,
            answer: write_removed(
                "full",
                "Hermes data has been removed. Finish the uninstall through Windows Settings → Apps → Hermes (or by running the MSI installer again) to remove the app and its bundled backend.",
            ),
        };
    }
    if same(&m, "lite") {
        return Removal {
            deletes_data: true,
            answer: write_removed(
                "lite",
                "Hermes data (sessions, profiles, state) has been removed. The desktop app and its bundled backend are untouched.",
            ),
        };
    }
    let mut o: Vec<(String, Json)> = Vec::new();
    assert(fields(o@) =~= no_fields());
    set_field(&mut o, "ok", Json::Bool(false));
    set_field(&mut o, "error", Json::text("invalid-mode"));
    set_field(
        &mut o,
        "message",
        Json::text("Unknown uninstall mode. Use 'gui', 'lite' or 'full'."),
    );
    Removal { deletes_data: false, answer: Json::Obj(o) }
}

/// Data is deleted only where that was asked for by name.
pub proof fn law_data_is_deleted_only_on_request(mode: Option<Seq<char>>)
    ensures
        removal_of(mode).0 ==> trimmed(or_empty(mode)) == "lite"@ || trimmed(or_empty(mode))
            == "full"@,
{
}

} // verus!
