//! What holds of previews, screenshots, window captures, updates and the SSH
//! configuration.

use crate::capture::{
    asked_capture, extent_guard, finished, is_offered, offer_of, offers_in_turn, swapped,
    CaptureTarget, FoundV, WindowV,
};
use crate::json::{field, lemma_found_after_put, str_field, JsonV};
use crate::outside::{base64_text, lowercase, png_of};
use crate::preview_watch::{
    after_event, after_tick, change_report_of, concerns, file_url_of, target_of, watch_answer_of,
    watch_guard, Dispatch, DispatchAction,
};
use crate::screenshots::{
    clear_guard, comparable, exclude_word, excluded, file_bytes, file_count, overlay_address,
    parts_of, pointed_dir, shown_project, EntrySize,
};
use crate::ssh_config::{
    advanced, directive, drawn_in_of, drawn_of, hosts_answer, hosts_of, named_host, plain_host,
    plain_only, resolved_json, resolved_line, resolved_of, split_once_of, ssh_args_of, ssh_outcome,
    taken_in, was_visited, with_new, DrawnV, ResolvedV, WalkV,
};
use crate::text::{
    ascii_lower, dec, dec_int, in_class, index_from, lines_of, parse_int_of, starts, trimmed, Class,
};
use crate::text_laws::{
    law_a_word_is_itself, law_blank_trims_to_nothing, law_numbers_read_back,
    law_trimming_takes_off_the_ends, law_words_part_at_a_separator, lemma_as_it_is, only, trim_text,
};
use crate::updates::{
    branch_json, branch_of, check_json, chosen_branch, data_home_of, inventory_json, removal_of,
    Inventory,
};
use vstd::prelude::*;

verus! {

// ---------------------------------------------------------------------------
// Previews
// ---------------------------------------------------------------------------

/// A plain path is the target itself; nothing is no target, and neither is a
/// `file` address of another machine.
pub proof fn law_a_plain_path_is_its_own_target(path: Seq<char>, host: Seq<char>, windows: bool)
    requires
        trim_text(path),
        !starts(path, "file://"@),
        host.len() > 0,
        host[0] != '/' && host[0] != 'l',
        trim_text("file://"@ + host),
    ensures
        target_of(path, windows) == Ok::<Seq<char>, Seq<char>>(path),
        target_of(Seq::empty(), windows) is Err,
        target_of("file://"@ + host, windows) is Err,
{
    lemma_as_it_is(path);
    reveal_strlit("file://");
    reveal_strlit("localhost/");
    reveal_strlit("/");
    assert("file://"@.len() == 7 && "localhost/"@.len() == 10 && "localhost/"@[0] == 'l');
    assert("/"@.len() == 1 && "/"@[0] == '/');
    law_blank_trims_to_nothing(Seq::empty(), Class::White);
    let f = "file://"@ + host;
    lemma_as_it_is(f);
    assert(f.take(7) =~= "file://"@);
    assert(f.skip(7) =~= host);
    if host.take(1) == "/"@ {
        assert(host.take(1)[0] == host[0]);
    }
    if host.len() >= 10 && host.take(10) == "localhost/"@ {
        assert(host.take(10)[0] == host[0]);
    }
}

/// A change of the watched file is taken in, that of another one is not; where
/// either has no name, every change is.
pub proof fn law_a_watch_hears_its_own_file(t: Seq<char>, c: Seq<char>)
    ensures
        concerns(Some(t), Some(c)) <==> t == c,
        concerns(None, Some(c)) && concerns(Some(t), None) && concerns(None, None),
{
}

/// A change is reported once, when nothing more has happened for the quiet time;
/// each further change starts that time anew.
pub proof fn law_changes_are_reported_once_quiet(d: Dispatch, a: u64, b: u64, now: u64)
    requires
        a <= b <= u64::MAX - 120,
    ensures
        ({
            let two = after_event(after_event(d, true, a), true, b);
            &&& after_tick(two, now).1 == DispatchAction::Report <==> now >= b + 120
            &&& now < b + 120 ==> after_tick(two, now).0 == two
            &&& now >= b + 120 ==> after_tick(two, now).0 == Dispatch::Idle
        }),
        after_tick(Dispatch::Idle, now) == (Dispatch::Idle, DispatchAction::Wait),
{
}

/// An answer and a report name the watch and the file; a report carries the
/// address of that file too. What is there is watched.
pub proof fn law_reports_name_the_file(id: Seq<char>, path: Seq<char>, noun: Seq<char>)
    ensures
        field(watch_answer_of(id, path), "id"@) == Some(JsonV::Str(id)),
        field(watch_answer_of(id, path), "path"@) == Some(JsonV::Str(path)),
        field(change_report_of(id, path), "id"@) == Some(JsonV::Str(id)),
        field(change_report_of(id, path), "path"@) == Some(JsonV::Str(path)),
        field(change_report_of(id, path), "url"@) == Some(JsonV::Str(file_url_of(path))),
        watch_guard(true, noun, path) is Ok,
        watch_guard(false, noun, path) is Err,
{
    broadcast use lemma_found_after_put;

    reveal_strlit("id");
    reveal_strlit("path");
    reveal_strlit("url");
    assert("id"@.len() == 2 && "path"@.len() == 4 && "url"@.len() == 3);
}

// ---------------------------------------------------------------------------
// Screenshots
// ---------------------------------------------------------------------------

/// Only the directory of the application and those of that name in a project are
/// ever emptied.
pub proof fn law_only_managed_directories_are_emptied(
    app: Seq<char>,
    path: Seq<char>,
    windows: bool,
)
    ensures
        clear_guard(Some(app), app, windows) is Ok,
        comparable(path, windows) == comparable(app, windows) ==> clear_guard(
            Some(app),
            path,
            windows,
        ) is Ok,
        ({
            let c = parts_of(path, windows);
            &&& c.len() >= 3 && lowercase(c[c.len() - 2]) == ".hermes"@ && lowercase(
                c[c.len() - 1],
            ) == "screenshots"@ ==> clear_guard(None, path, windows) is Ok
            &&& c.len() < 3 ==> clear_guard(None, path, windows) is Err
            &&& c.len() >= 1 && lowercase(c[c.len() - 1]) != "screenshots"@ ==> clear_guard(
                None,
                path,
                windows,
            ) is Err
            &&& c.len() >= 2 && lowercase(c[c.len() - 2]) != ".hermes"@ ==> clear_guard(
                None,
                path,
                windows,
            ) is Err
            &&& comparable(path, windows) != comparable(app, windows) ==> clear_guard(
                Some(app),
                path,
                windows,
            ) == clear_guard(None, path, windows)
        }),
{
}

/// Files are counted, with their bytes; directories are not.
pub proof fn law_only_files_are_counted(v: Seq<EntrySize>, e: EntrySize)
    ensures
        e.is_file ==> file_count(v.push(e)) == file_count(v) + 1 && file_bytes(v.push(e))
            == file_bytes(v) + e.len,
        !e.is_file ==> file_count(v.push(e)) == file_count(v) && file_bytes(v.push(e))
            == file_bytes(v),
        file_count(Seq::empty()) == 0,
        file_bytes(Seq::empty()) == 0,
{
    assert(v.push(e).drop_last() =~= v);
}

/// An entry that is added stands on a line of its own behind all that was there.
/// What was there stays; an entry that is there is not added again.
pub proof fn law_an_exclusion_is_added_behind(existing: Seq<char>, entry: Seq<char>)
    ensures
        excluded(existing, entry) matches Some(next) ==> next.len() > existing.len() && next.take(
            existing.len() as int,
        ) == existing && next.skip(next.len() - entry.len() - 1) == entry + seq!['\n'],
        excluded(existing, entry) matches Some(next) ==> next.len() - entry.len() - 1 == (if existing.len()
            > 0 && existing.last() != '\n' {
            existing.len() as int + 1
        } else {
            existing.len() as int
        }),
        (exists|i: int|
            0 <= i < lines_of(existing).len() && trimmed(#[trigger] lines_of(existing)[i]) == entry)
            ==> excluded(existing, entry) is None,
        exclude_word(true) == "added"@,
        exclude_word(false) == "already-present"@,
{
    if let Some(next) = excluded(existing, entry) {
        assert(next.take(existing.len() as int) =~= existing);
        assert(next.skip(next.len() - entry.len() - 1) =~= entry + seq!['\n']);
    }
}

/// The file of a linked worktree points to the directory that it names; any
/// other file to none. A project is shown where one is open.
pub proof fn law_a_linked_worktree_points_to_its_directory(dir: Seq<char>, other: Seq<char>)
    requires
        trim_text(dir),
        !starts(other, "gitdir:"@),
    ensures
        pointed_dir("gitdir:"@ + seq![' '] + dir + seq!['\n']) == Some(dir),
        pointed_dir(other) is None,
        shown_project(Some(dir)) == Some(dir),
        shown_project(Some(Seq::empty())) is None,
        shown_project(None) is None,
{
    reveal_strlit("gitdir:");
    assert("gitdir:"@.len() == 7);
    let s = "gitdir:"@ + seq![' '] + dir + seq!['\n'];
    assert(s.take(7) =~= "gitdir:"@);
    assert(s.skip(7) =~= seq![' '] + dir + seq!['\n']);
    law_trimming_takes_off_the_ends(seq![' '], dir, seq!['\n'], Class::White);
    lemma_as_it_is(dir);
    law_blank_trims_to_nothing(Seq::empty(), Class::White);
}

/// The floating button loads from the server that runs.
pub proof fn law_the_overlay_loads_from_the_server(base: Seq<char>, s: Seq<char>)
    requires
        base.len() > 0 && base[0] != '/' && base.last() != '/',
        only(s, Class::One('/')),
    ensures
        overlay_address(base + s) == base + "/?win=screenshot-overlay"@,
{
    law_trimming_takes_off_the_ends(Seq::empty(), base, s, Class::One('/'));
}

// ---------------------------------------------------------------------------
// Window captures
// ---------------------------------------------------------------------------

/// A window is offered exactly where it can be seen, has a title, is no palette
/// and belongs to another process; under its own handle, title, process and
/// number.
pub proof fn law_a_window_is_offered_as_it_is(w: FoundV, own: u32, t: Seq<char>)
    requires
        w.title == t,
        trim_text(t),
    ensures
        is_offered(w, own) <==> w.visible && !w.is_tool && w.pid != 0 && w.pid != own,
        !is_offered((FoundV { title: Seq::empty(), ..w }), own),
        offer_of(w).title == t,
        offer_of(w).process == w.process,
        offer_of(w).pid == w.pid,
        w.handle >= 0 ==> asked_capture(offer_of(w).id) == Ok::<CaptureTarget, Seq<char>>(
            CaptureTarget::Window(w.handle),
        ),
{
    lemma_as_it_is(t);
    law_blank_trims_to_nothing(Seq::empty(), Class::White);
    law_numbers_read_back(w.handle as int);
    reveal_strlit("screen");
    assert("screen"@.len() == 6 && "screen"@[0] == 's');
    if w.handle >= 0 {
        crate::text::lemma_dec_value(w.handle as nat);
        let d = dec(w.handle as nat);
        assert(dec_int(w.handle as int) == d);
        assert(crate::text::digit(d[0]));
    }
}

/// Windows are offered in turn, and none that is not found.
pub proof fn law_windows_are_offered_in_turn(found: Seq<FoundV>, w: FoundV, own: u32)
    ensures
        is_offered(w, own) ==> offers_in_turn(found.push(w), own) == offers_in_turn(
            found,
            own,
        ).push(offer_of(w)),
        !is_offered(w, own) ==> offers_in_turn(found.push(w), own) == offers_in_turn(found, own),
        offers_in_turn(Seq::empty(), own) == Seq::<WindowV>::empty(),
{
    assert(found.push(w).drop_last() =~= found);
}

/// The whole screen is captured where it is asked for, and a window where its
/// handle is; anything else is refused.
pub proof fn law_a_capture_is_of_what_is_asked_for(id: Seq<char>)
    ensures
        asked_capture("screen"@) == Ok::<CaptureTarget, Seq<char>>(CaptureTarget::Screen),
        asked_capture(id) == Ok::<CaptureTarget, Seq<char>>(CaptureTarget::Screen) ==> id
            == "screen"@,
        id != "screen"@ && parse_int_of(id) is None ==> asked_capture(id) is Err,
        asked_capture(id) matches Ok(CaptureTarget::Window(h)) ==> parse_int_of(id) == Some(
            h as int,
        ),
{
}

/// Of each pixel the first and the third byte change places, and the others
/// stay.
pub proof fn law_colours_change_places(p: Seq<u8>, k: int)
    requires
        0 <= k,
        4 * k + 4 <= p.len(),
    ensures
        swapped(p).len() == p.len(),
        swapped(p)[4 * k] == p[4 * k + 2],
        swapped(p)[4 * k + 1] == p[4 * k + 1],
        swapped(p)[4 * k + 2] == p[4 * k],
        swapped(p)[4 * k + 3] == p[4 * k + 3],
{
    assert((4 * k) % 4 == 0);
    assert((4 * k + 1) % 4 == 1);
    assert((4 * k + 2) % 4 == 2);
    assert((4 * k + 3) % 4 == 3);
}

/// A capture that shows something is encoded with its colours in order; a blank
/// one, one of no extent and one with too few bytes are refused.
pub proof fn law_a_capture_is_encoded_whole(
    bgra: Seq<u8>,
    width: u32,
    height: u32,
    i: int,
    png: Seq<u8>,
    w: i32,
    h: i32,
)
    ensures
        bgra.len() == width * height * 4 && 0 <= i < bgra.len() && swapped(bgra)[i] != 0 && png_of(
            swapped(bgra),
            width,
            height,
        ) == Ok::<Seq<u8>, Seq<char>>(png) ==> finished(bgra, width, height) == Ok::<
            Seq<char>,
            Seq<char>,
        >(base64_text(png)),
        (forall|j: int| 0 <= j < bgra.len() ==> #[trigger] swapped(bgra)[j] == 0) ==> finished(
            bgra,
            width,
            height,
        ) is Err,
        bgra.len() < width * height * 4 ==> finished(bgra, width, height) is Err,
        extent_guard(w, h) is Ok <==> w > 0 && h > 0,
{
}

// ---------------------------------------------------------------------------
// Updates and removal
// ---------------------------------------------------------------------------

/// The data lies where it is set to lie; otherwise where the platform keeps it.
/// A variable that is blank counts for nothing.
pub proof fn law_the_data_lies_where_it_is_set(
    over: Seq<char>,
    windows: bool,
    data: Seq<char>,
    profile: Seq<char>,
    home: Seq<char>,
)
    requires
        trim_text(over),
        trim_text(data),
    ensures
        data_home_of(Some(over), windows, Some(data), Some(profile), Some(home)) == (
            over,
            Seq::<Seq<char>>::empty(),
        ),
        data_home_of(None, true, Some(data), Some(profile), Some(home)) == (
            data,
            seq!["hermes"@],
        ),
        data_home_of(Some(seq![' ']), true, Some(data), Some(profile), Some(home)) == (
            data,
            seq!["hermes"@],
        ),
        data_home_of(None, true, None, Some(profile), Some(home)) == (
            profile,
            seq!["AppData"@, "Local"@, "hermes"@],
        ),
        data_home_of(None, true, None, None, Some(home)) == (
            home,
            seq!["AppData"@, "Local"@, "hermes"@],
        ),
        data_home_of(None, false, Some(data), Some(profile), Some(home)) == (
            home,
            seq![".hermes"@],
        ),
{
    lemma_as_it_is(over);
    lemma_as_it_is(data);
    law_blank_trims_to_nothing(seq![' '], Class::White);
}

/// The nightly channel is used exactly where it was chosen; anything else is the
/// stable one.
pub proof fn law_the_channel_is_the_one_chosen(stored: JsonV, name: Seq<char>, w: Seq<char>)
    requires
        only(w, Class::White),
    ensures
        chosen_branch("nightly"@ + w) == "nightly"@,
        trim_text(name) && name != "nightly"@ ==> chosen_branch(name) == "stable"@,
        branch_of(Some(stored)) == "nightly"@ <==> str_field(stored, "branch"@) == Some(
            "nightly"@,
        ),
        branch_of(Some(stored)) == "nightly"@ || branch_of(Some(stored)) == "stable"@,
        branch_of(None) == "stable"@,
        field(branch_json(name), "branch"@) == Some(JsonV::Str(name)),
{
    broadcast use lemma_found_after_put;

    reveal_strlit("nightly");
    reveal_strlit("stable");
    assert("nightly"@.len() == 7 && "stable"@.len() == 6);
    law_trimming_takes_off_the_ends(Seq::empty(), "nightly"@, w, Class::White);
    assert(Seq::<char>::empty() + "nightly"@ + w =~= "nightly"@ + w);
    if trim_text(name) {
        lemma_as_it_is(name);
    }
}

/// Data is deleted exactly in the modes that say so; the mode is answered, and an
/// unknown one is refused.
pub proof fn law_data_is_deleted_where_asked(m: Seq<char>)
    requires
        trim_text(m),
    ensures
        removal_of(Some(m)).0 <==> m == "lite"@ || m == "full"@,
        m == "gui"@ || m == "lite"@ || m == "full"@ ==> field(removal_of(Some(m)).1, "ok"@) == Some(
            JsonV::Bool(true),
        ) && field(removal_of(Some(m)).1, "mode"@) == Some(JsonV::Str(m)),
        m != "gui"@ && m != "lite"@ && m != "full"@ ==> field(removal_of(Some(m)).1, "ok"@) == Some(
            JsonV::Bool(false),
        ),
        !removal_of(None).0,
{
    broadcast use lemma_found_after_put;

    lemma_as_it_is(m);
    law_blank_trims_to_nothing(Seq::empty(), Class::White);
    reveal_strlit("gui");
    reveal_strlit("lite");
    reveal_strlit("full");
    reveal_strlit("ok");
    reveal_strlit("mode");
    reveal_strlit("message");
    reveal_strlit("error");
    assert("gui"@.len() == 3 && "lite"@.len() == 4 && "full"@.len() == 4);
    assert("lite"@[0] == 'l' && "full"@[0] == 'f');
    assert("ok"@.len() == 2 && "mode"@.len() == 4 && "message"@.len() == 7 && "error"@.len() == 5);
}

proof fn lemma_summary_names()
    ensures
        "probe"@.len() == 5,
        "reason"@.len() == 6,
        "message"@.len() == 7,
        "platform"@.len() == 8,
        "fetchedAt"@.len() == 9 && "fetchedAt"@[0] == 'f',
        "supported"@.len() == 9 && "supported"@[0] == 's',
        "hermes_home"@.len() == 11,
        "userdata_dir"@.len() == 12,
        "gui_installed"@.len() == 13,
        "agent_installed"@.len() == 15 && "agent_installed"@[0] == 'a',
        "userdata_exists"@.len() == 15 && "userdata_exists"@[0] == 'u',
        "running_app_path"@.len() == 16,
        "packaged_app_paths"@.len() == 18,
        "source_built_artifacts"@.len() == 22,
{
    reveal_strlit("probe");
    reveal_strlit("reason");
    reveal_strlit("message");
    reveal_strlit("platform");
    reveal_strlit("fetchedAt");
    reveal_strlit("supported");
    reveal_strlit("hermes_home");
    reveal_strlit("userdata_dir");
    reveal_strlit("gui_installed");
    reveal_strlit("agent_installed");
    reveal_strlit("userdata_exists");
    reveal_strlit("running_app_path");
    reveal_strlit("packaged_app_paths");
    reveal_strlit("source_built_artifacts");
}

/// A summary tells what there is: where the data and the settings lie, whether
/// the backend came along and what runs.
pub proof fn law_a_summary_tells_what_there_is(i: Inventory, now: u64)
    ensures
        ({
            let j = inventory_json(i);
            &&& field(j, "hermes_home"@) == Some(JsonV::Str(i.hermes_home@))
            &&& field(j, "agent_installed"@) == Some(JsonV::Bool(i.bundled_backend))
            &&& field(j, "userdata_dir"@) == Some(JsonV::Str(i.config_dir@))
            &&& field(j, "userdata_exists"@) == Some(JsonV::Bool(i.config_exists))
            &&& field(j, "platform"@) == Some(JsonV::Str(i.platform@))
            &&& i.running_app matches Some(p) ==> field(j, "running_app_path"@) == Some(
                JsonV::Str(p@),
            )
            &&& i.running_app is None ==> field(j, "running_app_path"@) == Some(JsonV::Null)
            &&& field(j, "gui_installed"@) == Some(JsonV::Bool(true))
        }),
        ({
            let c = check_json(now as nat);
            &&& field(c, "supported"@) == Some(JsonV::Bool(false))
            &&& field(c, "reason"@) == Some(JsonV::Str("installer-managed"@))
            &&& now <= i64::MAX ==> field(c, "fetchedAt"@) == Some(JsonV::Int(now as i64))
        }),
{
    broadcast use lemma_found_after_put;

    lemma_summary_names();
}

// ---------------------------------------------------------------------------
// The SSH configuration
// ---------------------------------------------------------------------------

proof fn lemma_first_space(k: Seq<char>, rest: Seq<char>)
    requires
        !k.contains(' '),
    ensures
        split_once_of(k + seq![' '] + rest) == Some((k, rest)),
{
    let s = k + seq![' '] + rest;
    lemma_index_at(s, ' ', 0, k.len() as int);
    assert forall|j: int| 0 <= j < k.len() implies s[j] != ' ' by {
        assert(s[j] == k[j]);
        if k[j] == ' ' {
            assert(k.contains(' '));
        }
    }
    assert(s.take(k.len() as int) =~= k);
    assert(s.skip(k.len() as int + 1) =~= rest);
}

proof fn lemma_index_at(s: Seq<char>, c: char, i: int, at: int)
    requires
        0 <= i <= at < s.len(),
        s[at] == c,
    ensures
        (forall|j: int| i <= j < at ==> #[trigger] s[j] != c) ==> index_from(s, c, i) == Some(at),
    decreases at - i,
{
    if i < at {
        lemma_index_at(s, c, i + 1, at);
    }
}

/// A line that starts with the keyword, in any case, names the words behind it.
/// A comment names nothing, and neither does a line of another keyword.
pub proof fn law_a_directive_names_its_words(
    k: Seq<char>,
    key: Seq<char>,
    a: Seq<char>,
    b: Seq<char>,
)
    requires
        !k.contains(' '),
        trim_text(k),
        k[0] != '#',
        trim_text(a) && trim_text(b),
        forall|i: int| 0 <= i < a.len() ==> !in_class(Class::White, #[trigger] a[i]),
        forall|i: int| 0 <= i < b.len() ==> !in_class(Class::White, #[trigger] b[i]),
    ensures
        ascii_lower(k) == ascii_lower(key) ==> directive(
            k + seq![' '] + (a + seq![' '] + b),
            key,
        ) == seq![a, b],
        ascii_lower(k) != ascii_lower(key) ==> directive(
            k + seq![' '] + (a + seq![' '] + b),
            key,
        ).len() == 0,
        directive(seq!['#'] + k, key).len() == 0,
        directive(Seq::empty(), key).len() == 0,
{
    let rest = a + seq![' '] + b;
    let line = k + seq![' '] + rest;
    assert(line[0] == k[0] && line.last() == b.last());
    assert(trim_text(line));
    lemma_as_it_is(line);
    lemma_first_space(k, rest);
    reveal_strlit("#");
    assert("#"@.len() == 1 && "#"@[0] == '#');
    if line.take(1) == "#"@ {
        assert(line.take(1)[0] == line[0]);
    }
    law_words_part_at_a_separator(a, ' ', b, Class::White);
    law_a_word_is_itself(a, Class::White);
    law_a_word_is_itself(b, Class::White);
    assert(seq![a] + seq![b] =~= seq![a, b]);
    let c = seq!['#'] + k;
    assert(c[0] == '#' && c.last() == k.last());
    assert(trim_text(c));
    lemma_as_it_is(c);
    assert(c.take(1) =~= "#"@);
    law_blank_trims_to_nothing(Seq::empty(), Class::White);
}

/// Hosts are taken from the lines in their order, each once; a pattern is no
/// host.
pub proof fn law_hosts_are_listed_once(l: Seq<Seq<char>>, line: Seq<char>, h: Seq<char>)
    requires
        directive(line, "host"@) == seq![h],
    ensures
        plain_host(h) && !hosts_of(l).contains(h) ==> hosts_of(l.push(line)) == hosts_of(l).push(h),
        plain_host(h) && hosts_of(l).contains(h) ==> hosts_of(l.push(line)) == hosts_of(l),
        h.contains('*') || h.contains('?') || starts(h, "!"@) ==> hosts_of(l.push(line))
            == hosts_of(l),
        h.len() > 0 && !h.contains('*') && !h.contains('?') && !starts(h, "!"@) ==> plain_host(h),
        hosts_of(Seq::empty()) == Seq::<Seq<char>>::empty(),
{
    assert(l.push(line).drop_last() =~= l);
    let w = seq![h];
    let e = Seq::<Seq<char>>::empty();
    assert(w.drop_last() =~= e);
    assert(w.last() == h);
    assert(plain_only(e) =~= e);
    assert(with_new(hosts_of(l), e) == hosts_of(l));
    if plain_host(h) {
        assert(plain_only(w) =~= w);
        assert(plain_only(w).drop_last() =~= e);
    } else {
        assert(plain_only(w) =~= e);
    }
}

/// Each line draws in the files that it names, behind those of the lines before;
/// one that starts with a tilde lies below the home.
pub proof fn law_files_are_drawn_in_in_order(l: Seq<Seq<char>>, line: Seq<char>, rest: Seq<char>)
    ensures
        drawn_in_of(l.push(line)) == drawn_in_of(l) + directive(line, "include"@),
        drawn_in_of(Seq::empty()) == Seq::<Seq<char>>::empty(),
        drawn_of("~/"@ + rest) == DrawnV::BelowHome(rest),
        !starts(rest, "~/"@) ==> drawn_of(rest) == DrawnV::Given(rest),
{
    assert(l.push(line).drop_last() =~= l);
    reveal_strlit("~/");
    assert("~/"@.len() == 2);
    let s = "~/"@ + rest;
    assert(s.take(2) =~= "~/"@);
    assert(s.skip(2) =~= rest);
}

/// The file that is read next is the one drawn in first among those left, once,
/// and no deeper than eight files.
pub proof fn law_the_walk_reads_each_file_once(s: WalkV, path: Seq<char>, depth: nat)
    requires
        s.pending.len() > 0,
        s.pending.last() == (path, depth),
    ensures
        depth <= 8 && !was_visited(s.visited, s.windows, path) ==> advanced(s).0 == Some(path)
            && advanced(s).1.visited == s.visited.push(path) && advanced(s).1.depth == depth
            && advanced(s).1.pending == s.pending.drop_last() && advanced(s).1.hosts == s.hosts,
        depth > 8 || was_visited(s.visited, s.windows, path) ==> advanced(s) == advanced(
            (WalkV { pending: s.pending.drop_last(), ..s }),
        ),
        advanced((WalkV { pending: Seq::empty(), ..s })).0 is None,
{
}

/// What a file draws in is read before the rest, in the order in which it is
/// named and one deeper; its hosts are added. A file that cannot be read adds
/// nothing.
pub proof fn law_a_file_is_taken_in_depth_first(s: WalkV, t: Seq<char>, a: Seq<char>, b: Seq<char>)
    ensures
        ({
            let n = taken_in(s, Some(t), seq![a, b]);
            &&& n.pending.len() == s.pending.len() + 2
            &&& n.pending.last() == (a, s.depth + 1)
            &&& n.pending[n.pending.len() - 2] == (b, s.depth + 1)
            &&& n.pending.take(s.pending.len() as int) == s.pending
            &&& n.hosts == with_new(s.hosts, hosts_of(lines_of(t)))
            &&& n.visited == s.visited
        }),
        taken_in(s, None, seq![a, b]) == s,
{
    let n = taken_in(s, Some(t), seq![a, b]);
    assert(n.pending.take(s.pending.len() as int) =~= s.pending);
}

/// The first value of a key counts, with the white space around it taken off; a
/// port is a number.
pub proof fn law_the_first_value_counts(
    r: ResolvedV,
    k: Seq<char>,
    v: Seq<char>,
    p: u16,
)
    requires
        !k.contains(' '),
        trim_text(k),
        trim_text(v),
    ensures
        ({
            let line = k + seq![' '] + v;
            let n = resolved_line(r, line);
            &&& lowercase(k) == "hostname"@ ==> n.hostname == (if r.hostname is None {
                Some(v)
            } else {
                r.hostname
            }) && n.user == r.user && n.port == r.port && n.identity_file == r.identity_file
            &&& lowercase(k) == "user"@ ==> n.user == (if r.user is None {
                Some(v)
            } else {
                r.user
            }) && n.hostname == r.hostname && n.port == r.port && n.identity_file
                == r.identity_file
            &&& lowercase(k) == "identityfile"@ ==> n.identity_file == (if r.identity_file is None {
                Some(v)
            } else {
                r.identity_file
            }) && n.hostname == r.hostname && n.user == r.user && n.port == r.port
            &&& lowercase(k) == "port"@ && v == dec(p as nat) ==> n.port == (if r.port is None {
                Some(p as int)
            } else {
                r.port
            }) && n.hostname == r.hostname && n.user == r.user && n.identity_file
                == r.identity_file
        }),
{
    let line = k + seq![' '] + v;
    assert(line[0] == k[0] && line.last() == v.last());
    assert(trim_text(line));
    lemma_as_it_is(line);
    lemma_as_it_is(v);
    lemma_first_space(k, v);
    law_numbers_read_back(p as int);
    assert(dec_int(p as int) == dec(p as nat));
    reveal_strlit("hostname");
    reveal_strlit("user");
    reveal_strlit("port");
    reveal_strlit("identityfile");
    assert("hostname"@.len() == 8 && "user"@.len() == 4 && "port"@.len() == 4);
    assert("identityfile"@.len() == 12 && "user"@[0] == 'u' && "port"@[0] == 'p');
}

/// The answer tells what was read, and nothing of what was not.
pub proof fn law_a_resolved_host_is_answered_as_read(r: ResolvedV, l: Seq<Seq<char>>, s: Seq<char>)
    ensures
        ({
            let j = resolved_json(r);
            &&& str_field(j, "hostname"@) == r.hostname
            &&& str_field(j, "user"@) == r.user
            &&& str_field(j, "identityFile"@) == r.identity_file
            &&& r.port matches Some(n) ==> field(j, "port"@) == Some(JsonV::Int(n as i64))
            &&& r.port is None ==> field(j, "port"@) == Some(JsonV::Null)
        }),
        resolved_of(l.push(s)) == resolved_line(resolved_of(l), s),
        resolved_of(Seq::empty()).hostname is None,
        field(hosts_answer(l), "hosts"@) matches Some(JsonV::Arr(v)) && v.len() == l.len()
            && forall|i: int| 0 <= i < v.len() ==> #[trigger] v[i] == JsonV::Str(l[i]),
{
    broadcast use lemma_found_after_put;

    assert(l.push(s).drop_last() =~= l);
    reveal_strlit("hostname");
    reveal_strlit("user");
    reveal_strlit("port");
    reveal_strlit("identityFile");
    assert("hostname"@.len() == 8 && "user"@.len() == 4 && "port"@.len() == 4);
    assert("identityFile"@.len() == 12 && "user"@[0] == 'u' && "port"@[0] == 'p');
}

/// A host is asked for by its name, behind the mark that ends the options. A run
/// that succeeds is answered with what it printed, one that fails with its
/// complaint.
pub proof fn law_a_host_is_asked_for_by_name(
    h: Seq<char>,
    code: i32,
    out: Seq<char>,
    e: Seq<char>,
    w: Seq<char>,
)
    requires
        trim_text(h),
        trim_text(e),
        only(w, Class::White),
    ensures
        named_host(w + h) == Ok::<Seq<char>, Seq<char>>(h),
        named_host(w) is Err,
        ssh_args_of(h).last() == h,
        ssh_args_of(h)[ssh_args_of(h).len() - 2] == "--"@,
        ssh_outcome(true, code, out, e) == Ok::<JsonV, Seq<char>>(
            resolved_json(resolved_of(lines_of(out))),
        ),
        ssh_outcome(false, code, out, e + w) == Err::<JsonV, Seq<char>>("ssh -G failed: "@ + e),
        ssh_args_of(h)[0] == "-G"@,
        ssh_outcome(false, code, out, w) is Err,
{
    law_trimming_takes_off_the_ends(w, h, Seq::empty(), Class::White);
    assert(w + h + Seq::<char>::empty() =~= w + h);
    law_trimming_takes_off_the_ends(Seq::empty(), e, w, Class::White);
    assert(Seq::<char>::empty() + e + w =~= e + w);
    law_blank_trims_to_nothing(w, Class::White);
}

/// A path was visited exactly where one of the visited files is the same one.
pub proof fn law_the_last_visit_counts(v: Seq<Seq<char>>, windows: bool, a: Seq<char>, b: Seq<char>)
    ensures
        was_visited(v.push(a), windows, a),
        was_visited(v.push(a), windows, b) <==> was_visited(v, windows, b)
            || crate::paths::components_of(a, windows) == crate::paths::components_of(b, windows),
        !was_visited(Seq::empty(), windows, b),
{
    let w = v.push(a);
    assert(w[v.len() as int] == a);
    if was_visited(v, windows, b) {
        let i = choose|i: int|
            0 <= i < v.len() && crate::paths::components_of(#[trigger] v[i], windows)
                == crate::paths::components_of(b, windows);
        assert(w[i] == v[i]);
    }
    if was_visited(w, windows, b) {
        let i = choose|i: int|
            0 <= i < w.len() && crate::paths::components_of(#[trigger] w[i], windows)
                == crate::paths::components_of(b, windows);
        if i < v.len() {
            assert(v[i] == w[i]);
        }
    }
}

} // verus!
