//! Watching a previewed file: its URL, the name filter and the quiet window
//! before a change is reported.

use crate::escape::{escape, escape_of, percent_decode, percent_decoded, Keep};
use crate::json::{fields, no_fields, put, set_field, Json, JsonV};
use crate::outside::random_bytes;
use crate::text::{
    after_prefix, hex, hex_of, opt_text, replace, replace_of, same, starts, starts_with,
    strip_prefix, text_result, trim, trim_start_class, trim_start_of, trimmed, Class,
};
use vstd::prelude::*;

verus! {

// ---------------------------------------------------------------------------
// File URLs
// ---------------------------------------------------------------------------

/// The `file` URL of a path, with every separator as `/`.
pub open spec fn file_url_of(path: Seq<char>) -> Seq<char> {
    "file:///"@ + escape_of(Keep::Path, replace_of(path, '\\', "/"@))
}

pub fn path_to_file_url(path: &str) -> (r: String)
    ensures
        r@ == file_url_of(path@),
{
    let mut out = "file:///".to_string();
    out.append(&escape(Keep::Path, &replace(path, '\\', "/")));
    out
}

/// The encoded path of a `file` URL, after its authority.
pub open spec fn local_part(rest: Seq<char>) -> Option<Seq<char>> {
    match after_prefix(rest, "localhost/"@) {
        Some(p) => Some("/"@ + p),
        None => if starts(rest, "/"@) {
            Some(rest)
        } else {
            None
        },
    }
}

/// The path that a preview target names: a `file` URL, or a plain path.
pub open spec fn target_of(raw: Seq<char>, windows: bool) -> Result<Seq<char>, Seq<char>> {
    let value = trimmed(raw);
    match after_prefix(value, "file://"@) {
        Some(rest) => match local_part(rest) {
            None => Err("not a local file URL: "@ + value),
            Some(p) => match percent_decoded(p) {
                None => Err("invalid file URL: "@ + value),
                Some(d) => Ok(
                    if windows {
                        trim_start_of(d, Class::One('/'))
                    } else {
                        d
                    },
                ),
            },
        },
        None => if value.len() == 0 {
            Err("Preview target is required."@)
        } else {
            Ok(value)
        },
    }
}

pub fn file_path_from_preview_target(raw: &str, windows: bool) -> (r: Result<String, String>)
    ensures
        text_result(r) == target_of(raw@, windows),
{
    let value = trim(raw);
    if let Some(rest) = strip_prefix(&value, "file://") {
        let path = match strip_prefix(&rest, "localhost/") {
            Some(p) => {
                let mut out = "/".to_string();
                out.append(&p);
                out
            },
            None => {
                if starts_with(&rest, "/") {
                    rest
                } else {
                    let mut e = "not a local file URL: ".to_string();
                    e.append(&value);
                    return Err(e);
                }
            },
        };
        return match percent_decode(&path) {
            Some(d) => if windows {
                Ok(trim_start_class(&d, Class::One('/')))
            } else {
                Ok(d)
            },
            None => {
                let mut e = "invalid file URL: ".to_string();
                e.append(&value);
                Err(e)
            },
        };
    }
    if value.as_str().is_empty() {
        return Err("Preview target is required.".to_string());
    }
    Ok(value)
}

/// The URL of a path leads back to the path, with every separator as `/`: on
/// Windows without leading slashes, elsewhere from the root.
pub proof fn law_file_url_leads_back(path: Seq<char>, windows: bool)
    ensures
        target_of(file_url_of(path), windows) == Ok::<Seq<char>, Seq<char>>(
            if windows {
                trim_start_of(replace_of(path, '\\', "/"@), Class::One('/'))
            } else {
                "/"@ + replace_of(path, '\\', "/"@)
            },
        ),
{
    let flat = replace_of(path, '\\', "/"@);
    let enc = escape_of(Keep::Path, flat);
    let url = file_url_of(path);
    reveal_strlit("file:///");
    reveal_strlit("file://");
    reveal_strlit("/");
    reveal_strlit("localhost/");
    lemma_escaped_chars(Keep::Path, flat);
    let last = url.last();
    assert(enc.len() > 0 ==> last == enc.last());
    assert(enc.len() == 0 ==> last == '/');
    assert(url[0] == 'f');
    crate::text::lemma_trim_fixed(url, Class::White);
    let rest = url.skip(7);
    assert(url.take(7) =~= "file://"@);
    assert(after_prefix(url, "file://"@) == Some(rest));
    assert(rest[0] == '/');
    assert(!starts(rest, "localhost/"@)) by {
        if starts(rest, "localhost/"@) {
            assert(rest.take(10)[0] == 'l');
        }
    }
    assert(rest.take(1) =~= "/"@);
    assert(local_part(rest) == Some(rest));
    // The slash in front of the encoded path is one that encoding keeps.
    let whole = "/"@ + flat;
    assert(whole.drop_first() =~= flat);
    assert(whole[0] == '/');
    assert(escape_of(Keep::Path, whole) =~= seq!['/'] + enc);
    assert(rest =~= seq!['/'] + enc);
    crate::escape::law_decode_undoes_encode(Keep::Path, whole);
    assert(trim_start_of(whole, Class::One('/')) == trim_start_of(flat, Class::One('/')));
}

proof fn lemma_escaped_chars(k: Keep, s: Seq<char>)
    ensures
        forall|i: int|
            0 <= i < escape_of(k, s).len() ==> !crate::text::white_space(
                #[trigger] escape_of(k, s)[i],
            ),
    decreases s.len(),
{
    if s.len() > 0 {
        lemma_escaped_chars(k, s.drop_first());
        let a = crate::escape::escape_char(k, s[0]);
        let b = escape_of(k, s.drop_first());
        lemma_escaped_bytes(vstd::utf8::encode_utf8(seq![s[0]]));
        assert forall|i: int| 0 <= i < escape_of(k, s).len() implies !crate::text::white_space(
            #[trigger] escape_of(k, s)[i],
        ) by {
            if i < a.len() {
                assert(escape_of(k, s)[i] == a[i]);
            } else {
                assert(escape_of(k, s)[i] == b[i - a.len()]);
            }
        }
    }
}

proof fn lemma_escaped_bytes(b: Seq<u8>)
    ensures
        forall|i: int|
            0 <= i < crate::escape::escape_bytes(b).len() ==> !crate::text::white_space(
                #[trigger] crate::escape::escape_bytes(b)[i],
            ),
    decreases b.len(),
{
    if b.len() > 0 {
        lemma_escaped_bytes(b.drop_first());
        let x = crate::escape::escape_byte(b[0]);
        let y = crate::escape::escape_bytes(b.drop_first());
        assert forall|i: int| 0 <= i < crate::escape::escape_bytes(b).len() implies
            !crate::text::white_space(#[trigger] crate::escape::escape_bytes(b)[i]) by {
            if i < 3 {
                assert(crate::escape::escape_bytes(b)[i] == x[i]);
            } else {
                assert(crate::escape::escape_bytes(b)[i] == y[i - 3]);
            }
        }
    }
}

// ---------------------------------------------------------------------------
// The quiet window
// ---------------------------------------------------------------------------

/// How long a file must be quiet before a change is reported.
pub const PREVIEW_WATCH_DEBOUNCE_MS: u64 = 120;

/// Where the dispatcher of a watch stands.
#[derive(Clone, Copy, Debug, PartialEq, Eq, Structural)]
pub enum Dispatch {
    /// Nothing has happened since the last report.
    Idle,
    /// A change is reported at this time, unless another comes first.
    Pending { deadline: u64 },
}

/// What the dispatcher does after a step.
#[derive(Clone, Copy, Debug, PartialEq, Eq, Structural)]
pub enum DispatchAction {
    Wait,
    /// Report the change, if the target still exists.
    Report,
}

/// Whether an event concerns the target. A watch without a name takes every
/// event; so does an event without a file name.
pub open spec fn concerns(target: Option<Seq<char>>, changed: Option<Seq<char>>) -> bool {
    match (target, changed) {
        (Some(t), Some(c)) => t == c,
        _ => true,
    }
}

pub fn event_concerns(target: &Option<String>, changed: &Option<String>) -> (r: bool)
    ensures
        r == concerns(opt_text(*target), opt_text(*changed)),
{
    match target {
        Some(t) => match changed {
            Some(c) => same(t, c),
            None => true,
        },
        None => true,
    }
}

pub open spec fn after_event(d: Dispatch, concerned: bool, now: u64) -> Dispatch {
    if concerned {
        Dispatch::Pending { deadline: (now + 120) as u64 }
    } else {
        d
    }
}

/// An event at time `now`: one that concerns the target starts the quiet window
/// anew.
pub fn on_event(d: Dispatch, concerned: bool, now: u64) -> (r: Dispatch)
    requires
        now <= u64::MAX - 120,
    ensures
        r == after_event(d, concerned, now),
{
    if concerned {
        Dispatch::Pending { deadline: now + PREVIEW_WATCH_DEBOUNCE_MS }
    } else {
        d
    }
}

pub open spec fn after_tick(d: Dispatch, now: u64) -> (Dispatch, DispatchAction) {
    match d {
        Dispatch::Pending { deadline } => if now >= deadline {
            (Dispatch::Idle, DispatchAction::Report)
        } else {
            (d, DispatchAction::Wait)
        },
        Dispatch::Idle => (d, DispatchAction::Wait),
    }
}

/// The passing of time: a change is reported when its quiet window is over.
pub fn on_tick(d: Dispatch, now: u64) -> (r: (Dispatch, DispatchAction))
    ensures
        r == after_tick(d, now),
{
    match d {
        Dispatch::Pending { deadline } => if now >= deadline {
            (Dispatch::Idle, DispatchAction::Report)
        } else {
            (d, DispatchAction::Wait)
        },
        Dispatch::Idle => (d, DispatchAction::Wait),
    }
}

/// A change is reported once its file has been quiet for the whole window, and
/// no earlier; and it is reported once.
pub proof fn law_change_is_reported_after_quiet(d: Dispatch, changed_at: u64, now: u64)
    requires
        changed_at <= u64::MAX - 120,
    ensures
        ({
            let pending = after_event(d, true, changed_at);
            let (next, action) = after_tick(pending, now);
            &&& action == DispatchAction::Report <==> now >= changed_at + 120
            &&& action == DispatchAction::Report ==> after_tick(next, now).1
                == DispatchAction::Wait
        }),
{
}

/// Events that do not concern the target change nothing.
pub proof fn law_other_files_do_not_matter(d: Dispatch, now: u64)
    ensures
        after_event(d, false, now) == d,
{
}

// ---------------------------------------------------------------------------
// Answers
// ---------------------------------------------------------------------------

/// A fresh id for a watch: eighteen hexadecimal digits of random bytes.
pub fn new_watch_id() -> (r: String)
    ensures
        exists|b: Seq<u8>| b.len() == 9 && r@ == #[trigger] hex_of(b),
{
    let b = random_bytes(9);
    hex(&b)
}

/// The answer to a request to watch.
pub open spec fn watch_answer_of(id: Seq<char>, path: Seq<char>) -> JsonV {
    JsonV::Obj(put(put(no_fields(), "id"@, JsonV::Str(id)), "path"@, JsonV::Str(path)))
}

pub fn watch_answer(id: &str, path: &str) -> (r: Json)
    ensures
        r@ == watch_answer_of(id@, path@),
{
    broadcast use crate::json::group_json_views;

    let mut o: Vec<(String, Json)> = Vec::new();
    assert(fields(o@) =~= no_fields());
    set_field(&mut o, "id", Json::text(id));
    set_field(&mut o, "path", Json::text(path));
    Json::Obj(o)
}

/// The report of a change.
pub open spec fn change_report_of(id: Seq<char>, path: Seq<char>) -> JsonV {
    JsonV::Obj(
        put(
            put(put(no_fields(), "id"@, JsonV::Str(id)), "path"@, JsonV::Str(path)),
            "url"@,
            JsonV::Str(file_url_of(path)),
        ),
    )
}

pub fn change_report(id: &str, path: &str) -> (r: Json)
    ensures
        r@ == change_report_of(id@, path@),
{
    broadcast use crate::json::group_json_views;

    let mut o: Vec<(String, Json)> = Vec::new();
    assert(fields(o@) =~= no_fields());
    set_field(&mut o, "id", Json::text(id));
    set_field(&mut o, "path", Json::text(path));
    set_field(&mut o, "url", Json::Str(path_to_file_url(path)));
    Json::Obj(o)
}

/// Refuses a target of the wrong sort.
pub open spec fn watch_guard(found: bool, noun: Seq<char>, shown: Seq<char>) -> Result<
    (),
    Seq<char>,
> {
    if found {
        Ok(())
    } else {
        Err("Not a "@ + noun + ": "@ + shown)
    }
}

pub fn check_watch_target(found: bool, noun: &str, shown: &str) -> (r: Result<(), String>)
    ensures
        crate::text::unit_result(r) == watch_guard(found, noun@, shown@),
{
    if found {
        Ok(())
    } else {
        let mut e = "Not a ".to_string();
        e.append(noun);
        e.append(": ");
        e.append(shown);
        Err(e)
    }
}

} // verus!
