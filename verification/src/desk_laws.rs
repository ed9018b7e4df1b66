//! How the backend is addressed and asked, what a saved gateway comes to, and
//! what a probe finds.

use crate::commands::{
    announced, api_url, awaited, boot_of, data_url_of, entry_order, fresh_backend, known_mime,
    listing_of, local_connection, local_ws_answer, outcome_of, path_extension, planned_headers,
    planned_load, planned_timeout, planned_verb, scoped_connection, upload_type, with_session,
    ws_url_of, Carries, DirEntryV, Verb,
};
use crate::connection_config::{
    address_probe_of, base_of_parts, base_url_of, coerced, config_test_of, edited_block,
    edited_profile, lemma_profile_after_set, listed_providers, probe_of, probe_size_guard,
    profile_block, providers_in, set_profile_of, shown, starting_block, BlockV, ConfigV, ProbeStepV,
};
use crate::json::{field, lemma_found_after_put, str_field, JsonV};
use crate::outside::{base64_text, lossy_text, lowercase, uppercase, url_of, UrlHostV, UrlV};
use crate::text::{before, contains_of, dec, Class};
use crate::text_laws::{
    law_blank_trims_to_nothing, law_trimming_takes_off_the_ends, lemma_as_it_is, only, trim_text,
};
use vstd::prelude::*;

verus! {

/// An address that does not end in a slash.
pub open spec fn bare_address(b: Seq<char>) -> bool {
    b.len() > 0 && b[0] != '/' && b.last() != '/'
}

proof fn lemma_bare(b: Seq<char>, s: Seq<char>)
    requires
        bare_address(b),
        only(s, Class::One('/')),
    ensures
        crate::commands::bare_base(b + s) == b,
{
    law_trimming_takes_off_the_ends(Seq::empty(), b, s, Class::One('/'));
}

// ---------------------------------------------------------------------------
// The managed backend
// ---------------------------------------------------------------------------

/// What was announced is what is used: the address without its trailing slashes,
/// at once and whatever the wait, and the token, in every descriptor.
pub proof fn law_what_was_announced_is_dialled(
    b: Seq<char>,
    s: Seq<char>,
    t: Seq<char>,
    profile: Option<Seq<char>>,
    late: bool,
)
    requires
        bare_address(b),
        only(s, Class::One('/')),
    ensures
        ({
            let a = announced(b + s, t);
            let c = local_connection(a, profile);
            &&& awaited(a, late) == Some(b)
            &&& c.base_url == b
            &&& c.token == t
            &&& c.ws_url == ws_url_of(b, t)
            &&& c.mode == "local"@
            &&& c.auth_mode == "token"@
            &&& c.profile == profile
            &&& field(local_ws_answer(a), "ok"@) == Some(JsonV::Bool(true))
            &&& field(local_ws_answer(a), "wsUrl"@) == Some(JsonV::Str(ws_url_of(b, t)))
            &&& field(local_ws_answer(a), "baseUrl"@) == Some(JsonV::Str(b))
            &&& boot_of(a, 0).phase == "backend.ready"@ && !boot_of(a, 0).running
        }),
{
    broadcast use lemma_found_after_put;

    lemma_bare(b, s);
    if t.len() == 0 {
        assert(t =~= Seq::<char>::empty());
    }
    reveal_strlit("ok");
    reveal_strlit("wsUrl");
    reveal_strlit("baseUrl");
    assert("ok"@.len() == 2 && "wsUrl"@.len() == 5 && "baseUrl"@.len() == 7);
}

/// Nothing is used before it is announced, unless the wait ended; until then the
/// boot is shown as running. A token alone announces nothing.
pub proof fn law_an_unannounced_backend_is_waited_for(
    env: Option<Seq<char>>,
    t: Seq<char>,
    now: i64,
)
    ensures
        awaited(fresh_backend(env), false) is None,
        awaited(fresh_backend(env), true) is Some,
        awaited(with_session(fresh_backend(env), t), false) is None,
        boot_of(fresh_backend(env), now).running,
        !boot_of(fresh_backend(env), now).fake_mode && !boot_of(announced(t, t), now).fake_mode,
        boot_of(fresh_backend(env), now).error is None,
        boot_of(announced(t, t), now).error is None,
        boot_of(fresh_backend(env), now).timestamp == now,
        boot_of(announced(t, t), now).timestamp == now,
        fresh_backend(env).token == env,
        with_session(fresh_backend(env), t).token == if t.len() == 0 {
            None
        } else {
            Some(t)
        },
        with_session(fresh_backend(env), t).base_url == fresh_backend(env).base_url,
{
}

// ---------------------------------------------------------------------------
// Requests
// ---------------------------------------------------------------------------

/// A request goes to its path below the address, with one slash between them.
pub proof fn law_a_request_goes_to_its_path(base: Seq<char>, s: Seq<char>, path: Seq<char>)
    requires
        bare_address(path),
        only(s, Class::One('/')),
    ensures
        api_url(base, s + path) == base + "/"@ + path,
{
    law_trimming_takes_off_the_ends(s, path, Seq::empty(), Class::One('/'));
}

/// A request has the verb that it names, in any case; anything else reads. It
/// has the time it asks for, and twenty seconds where it asks for none.
pub proof fn law_a_request_has_its_verb(m: Seq<char>, t: u64)
    ensures
        uppercase(m) == "POST"@ ==> planned_verb(Some(m)) == Verb::Post,
        uppercase(m) == "PUT"@ ==> planned_verb(Some(m)) == Verb::Put,
        uppercase(m) == "PATCH"@ ==> planned_verb(Some(m)) == Verb::Patch,
        uppercase(m) == "DELETE"@ ==> planned_verb(Some(m)) == Verb::Delete,
        uppercase(m) == "GET"@ ==> planned_verb(Some(m)) == Verb::Get,
        planned_verb(Some(m)) != Verb::Get ==> uppercase(m) == "POST"@ || uppercase(m) == "PUT"@
            || uppercase(m) == "PATCH"@ || uppercase(m) == "DELETE"@,
        planned_verb(None) == planned_verb(Some("GET"@)),
        uppercase("GET"@) == "GET"@ ==> planned_verb(None) == Verb::Get,
        planned_timeout(Some(t)) == t,
        planned_timeout(None) == 20 * 1000,
{
    reveal_strlit("POST");
    reveal_strlit("PUT");
    reveal_strlit("PATCH");
    reveal_strlit("DELETE");
    reveal_strlit("GET");
    assert("POST"@.len() == 4 && "PUT"@.len() == 3 && "PATCH"@.len() == 5 && "DELETE"@.len() == 6);
    assert("GET"@.len() == 3 && "GET"@[0] == 'G' && "PUT"@[0] == 'P');
}

/// The token goes first and the other headers follow in their order; without a
/// token only they are sent.
pub proof fn law_the_token_goes_before_other_headers(
    t: Seq<char>,
    extra: Seq<(Seq<char>, Seq<char>)>,
)
    ensures
        t.len() > 0 ==> planned_headers(t, extra).len() == extra.len() + 1 && planned_headers(
            t,
            extra,
        )[0] == ("X-Hermes-Session-Token"@, t) && planned_headers(t, extra).skip(1) == extra,
        planned_headers(Seq::empty(), extra) == extra,
{
    if t.len() > 0 {
        assert(planned_headers(t, extra).skip(1) =~= extra);
    }
    assert(planned_headers(Seq::empty(), extra) =~= extra);
}

/// A file is sent where there is one, a body where there is only that. A file
/// that names no type is sent as bytes.
pub proof fn law_a_request_carries_what_it_has(body: bool, t: Seq<char>)
    ensures
        planned_load(true, body) == Carries::Upload,
        planned_load(false, true) == Carries::Body,
        planned_load(false, false) == Carries::Nothing,
        upload_type(Some(t)) == t,
        upload_type(None) == "application/octet-stream"@,
{
}

/// A request is for a registered connection where it names one other than the
/// local one.
pub proof fn law_a_request_is_for_the_connection_named(id: Seq<char>)
    requires
        trim_text(id),
    ensures
        id != "local"@ ==> scoped_connection(Some(id)) == Some(id),
        scoped_connection(Some("local"@)) is None,
        scoped_connection(Some(Seq::empty())) is None,
        scoped_connection(None) is None,
{
    lemma_as_it_is(id);
    reveal_strlit("local");
    assert("local"@.len() == 5);
    lemma_as_it_is("local"@);
    law_blank_trims_to_nothing(Seq::empty(), Class::White);
}

/// A reply is its JSON where its status says success; otherwise it is an error
/// with the status and the text.
pub proof fn law_an_outcome_is_its_json(
    status: u16,
    bytes: Seq<u8>,
    parsed: Option<JsonV>,
    j: JsonV,
)
    ensures
        outcome_of(status, bytes, parsed) == Ok::<JsonV, Seq<char>>(j) <==> parsed == Some(j)
            && 200 <= status < 300,
        !(200 <= status < 300) ==> outcome_of(status, bytes, parsed) == Err::<JsonV, Seq<char>>(
            "backend "@ + dec(status as nat) + ": "@ + lossy_text(bytes),
        ),
{
}

// ---------------------------------------------------------------------------
// Files and directories
// ---------------------------------------------------------------------------

/// A listing holds every entry that was found and no other; directories come
/// before files, and within each the names are in order whatever their case.
pub proof fn law_a_listing_holds_what_was_found(found: Seq<DirEntryV>, i: int, j: int)
    requires
        0 <= i < j < listing_of(found).len(),
    ensures
        listing_of(found).to_multiset() == found.to_multiset(),
        listing_of(found)[j].is_directory ==> listing_of(found)[i].is_directory,
        listing_of(found)[i].is_directory == listing_of(found)[j].is_directory ==> !before(
            lowercase(listing_of(found)[j].name),
            lowercase(listing_of(found)[i].name),
        ),
{
    crate::commands::law_listing_is_sorted(found);
    let v = listing_of(found);
    assert(!(entry_order())(v[j], v[i]));
}

proof fn lemma_extensions()
    ensures
        "js"@.len() == 2 && "js"@[0] == 'j',
        "md"@.len() == 2 && "md"@[0] == 'm',
        "ts"@.len() == 2 && "ts"@[0] == 't',
        "css"@.len() == 3 && "css"@[0] == 'c' && "css"@[1] == 's',
        "gif"@.len() == 3 && "gif"@[0] == 'g' && "gif"@[1] == 'i',
        "htm"@.len() == 3 && "htm"@[0] == 'h' && "htm"@[1] == 't',
        "jpg"@.len() == 3 && "jpg"@[0] == 'j' && "jpg"@[1] == 'p',
        "jsx"@.len() == 3 && "jsx"@[0] == 'j' && "jsx"@[1] == 's',
        "log"@.len() == 3 && "log"@[0] == 'l' && "log"@[1] == 'o',
        "mjs"@.len() == 3 && "mjs"@[0] == 'm' && "mjs"@[1] == 'j',
        "pdf"@.len() == 3 && "pdf"@[0] == 'p' && "pdf"@[1] == 'd',
        "png"@.len() == 3 && "png"@[0] == 'p' && "png"@[1] == 'n',
        "svg"@.len() == 3 && "svg"@[0] == 's' && "svg"@[1] == 'v',
        "tsx"@.len() == 3 && "tsx"@[0] == 't' && "tsx"@[1] == 's',
        "txt"@.len() == 3 && "txt"@[0] == 't' && "txt"@[1] == 'x',
        "html"@.len() == 4 && "html"@[1] == 't',
        "jpeg"@.len() == 4 && "jpeg"@[1] == 'p',
        "json"@.len() == 4 && "json"@[1] == 's',
        "webp"@.len() == 4 && "webp"@[1] == 'e',
{
    reveal_strlit("js");
    reveal_strlit("md");
    reveal_strlit("ts");
    reveal_strlit("css");
    reveal_strlit("gif");
    reveal_strlit("htm");
    reveal_strlit("jpg");
    reveal_strlit("jsx");
    reveal_strlit("log");
    reveal_strlit("mjs");
    reveal_strlit("pdf");
    reveal_strlit("png");
    reveal_strlit("svg");
    reveal_strlit("tsx");
    reveal_strlit("txt");
    reveal_strlit("html");
    reveal_strlit("jpeg");
    reveal_strlit("json");
    reveal_strlit("webp");
}

/// A file is shown by its bytes under the type that its extension stands for, in
/// any case; what has no known extension is shown as bytes.
pub proof fn law_a_file_is_shown_under_its_type(path: Seq<char>, windows: bool, data: Seq<u8>)
    ensures
        ({
            let e = lowercase(path_extension(path, windows));
            let u = data_url_of(path, windows, data);
            let tail = ";base64,"@ + base64_text(data);
            &&& e == "png"@ ==> u == "data:"@ + "image/png"@ + tail
            &&& e == "jpg"@ || e == "jpeg"@ ==> u == "data:"@ + "image/jpeg"@ + tail
            &&& e == "gif"@ ==> u == "data:"@ + "image/gif"@ + tail
            &&& e == "webp"@ ==> u == "data:"@ + "image/webp"@ + tail
            &&& e == "svg"@ ==> u == "data:"@ + "image/svg+xml"@ + tail
            &&& e == "pdf"@ ==> u == "data:"@ + "application/pdf"@ + tail
            &&& e == "txt"@ || e == "md"@ || e == "log"@ ==> u == "data:"@ + "text/plain"@ + tail
            &&& e == "json"@ ==> u == "data:"@ + "application/json"@ + tail
            &&& e == "html"@ || e == "htm"@ ==> u == "data:"@ + "text/html"@ + tail
            &&& e == "css"@ ==> u == "data:"@ + "text/css"@ + tail
            &&& e == "js"@ || e == "mjs"@ || e == "ts"@ || e == "tsx"@ || e == "jsx"@ ==> u
                == "data:"@ + "text/javascript"@ + tail
            &&& e.len() == 0 || e.len() > 4 ==> u == "data:"@ + "application/octet-stream"@ + tail
        }),
{
    lemma_extensions();
    let d = "data:"@;
    let b = ";base64,"@;
    let x = base64_text(data);
    let m = known_mime(lowercase(path_extension(path, windows)));
    assert(d + m + b + x =~= d + m + (b + x));
}

// ---------------------------------------------------------------------------
// Base addresses
// ---------------------------------------------------------------------------

/// A base address is the scheme, the host, the port where it is named and the
/// path without its trailing slashes.
pub proof fn law_a_base_address_is_made_of_its_parts(u: UrlV, h: Seq<char>, s: Seq<char>)
    requires
        u.host == UrlHostV::Domain(h),
        only(s, Class::One('/')),
    ensures
        u.path == s && u.port is None ==> base_of_parts(u) == u.scheme + "://"@ + h,
        u.path == s ==> (u.port matches Some(p) ==> base_of_parts(u) == u.scheme + "://"@ + h
            + ":"@ + dec(p as nat)),
        forall|path: Seq<char>|
            path.len() > 0 && path[0] == '/' && path.last() != '/' && u.path == #[trigger] (path + s)
                && u.port is None ==> base_of_parts(u) == u.scheme + "://"@ + h + path,
{
    reveal_strlit(":");
    assert(":"@ =~= seq![':']);
    crate::text::lemma_trim_end(s, Class::One('/'));
    lemma_all_off(s);
    let b = u.scheme + "://"@ + h;
    assert(b + Seq::<char>::empty() =~= b);
    if let Some(p) = u.port {
        let w = b + seq![':'] + dec(p as nat);
        assert(w + Seq::<char>::empty() =~= w);
    }
    assert forall|path: Seq<char>|
        path.len() > 0 && path[0] == '/' && path.last() != '/' && u.path == #[trigger] (path + s)
            && u.port is None implies base_of_parts(u) == u.scheme + "://"@ + h + path by {
        lemma_tail_off(path, s);
    }
}

proof fn lemma_all_off(s: Seq<char>)
    requires
        only(s, Class::One('/')),
    ensures
        crate::text::trim_end_of(s, Class::One('/')) == Seq::<char>::empty(),
    decreases s.len(),
{
    if s.len() > 0 {
        lemma_all_off(s.drop_last());
    } else {
        assert(s =~= Seq::<char>::empty());
    }
}

proof fn lemma_tail_off(p: Seq<char>, s: Seq<char>)
    requires
        p.len() > 0,
        p.last() != '/',
        only(s, Class::One('/')),
    ensures
        crate::text::trim_end_of(p + s, Class::One('/')) == p,
    decreases s.len(),
{
    if s.len() == 0 {
        assert(p + s =~= p);
    } else {
        assert((p + s).last() == s.last());
        assert((p + s).drop_last() =~= p + s.drop_last());
        lemma_tail_off(p, s.drop_last());
    }
}

/// What is typed is read without the white space around it; without a scheme it
/// is read as `http`. What is no address stays as it was typed, and nothing
/// typed is no address.
pub proof fn law_a_typed_address_is_read(t: Seq<char>)
    requires
        trim_text(t),
    ensures
        contains_of(t, "://"@) ==> (url_of(t) matches Some(u) ==> base_url_of(t) == base_of_parts(
            u,
        )),
        !contains_of(t, "://"@) ==> (url_of("http://"@ + t) matches Some(u) ==> base_url_of(t)
            == base_of_parts(u)),
        url_of(
            if contains_of(t, "://"@) {
                t
            } else {
                "http://"@ + t
            },
        ) is None ==> base_url_of(t) == t,
        base_url_of(Seq::empty()).len() == 0,
{
    lemma_as_it_is(t);
    law_blank_trims_to_nothing(Seq::empty(), Class::White);
}

// ---------------------------------------------------------------------------
// The saved gateway
// ---------------------------------------------------------------------------

proof fn lemma_mode_names()
    ensures
        "local"@.len() == 5 && "local"@[0] == 'l',
        "cloud"@.len() == 5 && "cloud"@[0] == 'c',
        "oauth"@.len() == 5 && "oauth"@[0] == 'o',
        "token"@.len() == 5 && "token"@[0] == 't',
        "remote"@.len() == 6,
        "ssh"@.len() == 3,
{
    reveal_strlit("local");
    reveal_strlit("cloud");
    reveal_strlit("oauth");
    reveal_strlit("token");
    reveal_strlit("remote");
    reveal_strlit("ssh");
}

/// The block that a save leaves for the scope that it edits.
pub open spec fn block_after(payload: JsonV, existing: ConfigV) -> BlockV {
    if edited_profile(payload).len() == 0 {
        coerced(payload, existing).remote
    } else {
        profile_block(coerced(payload, existing).profiles, edited_profile(payload))->0
    }
}

/// A save stores the mode, the address, the login, the token and the
/// organisation that are typed, in the scope that it names.
pub proof fn law_what_is_typed_is_saved(
    payload: JsonV,
    existing: ConfigV,
    mode: Seq<char>,
    url: Seq<char>,
    t: Seq<char>,
)
    requires
        str_field(payload, "mode"@) == Some(mode),
        mode == "local"@ || mode == "remote"@ || mode == "cloud"@ || mode == "ssh"@,
        str_field(payload, "remoteUrl"@) == Some(url),
        str_field(payload, "remoteToken"@) == Some(t) && trim_text(t),
    ensures
        ({
            let b = block_after(payload, existing);
            &&& b.mode == mode
            &&& b.url == base_url_of(url)
            &&& b.token == Some(t)
            &&& str_field(payload, "remoteAuthMode"@) == Some("oauth"@) ==> b.auth_mode == "oauth"@
            &&& str_field(payload, "remoteAuthMode"@) == Some("token"@) ==> b.auth_mode == "token"@
            &&& mode == "cloud"@ ==> (str_field(payload, "cloudOrg"@) matches Some(o) ==> b.org
                == o)
            &&& mode != "cloud"@ ==> b.org.len() == 0
        }),
        edited_profile(payload).len() == 0 ==> coerced(payload, existing).mode == mode,
        edited_profile(payload).len() > 0 ==> coerced(payload, existing).mode == existing.mode,
{
    lemma_mode_names();
    lemma_as_it_is(t);
    lemma_profile_after_set(
        existing.profiles,
        edited_profile(payload),
        edited_block(payload, starting_block(payload, existing)),
        edited_profile(payload),
    );
}

/// What a save does not type stays as it was, where the scope is not left for
/// another kind of gateway.
pub proof fn law_what_is_not_typed_is_kept(payload: JsonV, existing: ConfigV)
    requires
        edited_profile(payload).len() == 0,
        existing.mode == "remote"@,
        str_field(payload, "mode"@) == Some("remote"@),
        str_field(payload, "remoteUrl"@) is None,
        str_field(payload, "remoteToken"@) is None,
        str_field(payload, "remoteAuthMode"@) is None,
        existing.remote.auth_mode == "oauth"@ || existing.remote.auth_mode == "token"@,
    ensures
        block_after(payload, existing).url == base_url_of(existing.remote.url),
        block_after(payload, existing).token == existing.remote.token,
        block_after(payload, existing).auth_mode == existing.remote.auth_mode,
        coerced(payload, existing).profiles == existing.profiles,
{
    lemma_mode_names();
    law_blank_trims_to_nothing(Seq::empty(), Class::White);
}

/// A scope is shown with its own block, the mode and the address as saved, and of
/// the token that there is one and how it starts. A profile without a block of its
/// own is shown the global one.
pub proof fn law_a_scope_is_shown_as_saved(
    c: ConfigV,
    name: Seq<char>,
    b: BlockV,
    url: Seq<char>,
    t: Seq<char>,
)
    requires
        name.len() > 0,
        b.url == url && bare_address(url),
        b.token == Some(t) && t.len() > 0,
        b.mode == "remote"@ || b.mode == "cloud"@,
    ensures
        ({
            let s = shown((ConfigV { remote: b, mode: b.mode, ..c }), None);
            let p = shown(
                (ConfigV { profiles: set_profile_of(c.profiles, name, b), ..c }),
                Some(name),
            );
            &&& s.mode == b.mode && p.mode == b.mode
            &&& s.remote_url == url && p.remote_url == url
            &&& s.remote_token_set && p.remote_token_set
            &&& s.remote_token_preview == Some(
                (if t.len() <= 8 {
                    t
                } else {
                    t.take(8)
                }) + "…"@,
            )
            &&& p.remote_token_preview == s.remote_token_preview
            &&& s.remote_auth_mode == if b.auth_mode == "oauth"@ {
                "oauth"@
            } else {
                "token"@
            }
            &&& s.cloud_org == if b.mode == "cloud"@ {
                b.org
            } else {
                Seq::empty()
            }
            &&& s.profile is None && p.profile == Some(name)
        }),
        profile_block(c.profiles, name) is None ==> shown(c, Some(name)).remote_url == shown(
            c,
            None,
        ).remote_url && shown(c, Some(name)).mode == shown(c, None).mode,
        !shown((ConfigV { remote: (BlockV { token: None, ..b }), ..c }), None).remote_token_set,
{
    lemma_mode_names();
    lemma_profile_after_set(c.profiles, name, b, name);
    law_trimming_takes_off_the_ends(Seq::empty(), url, Seq::empty(), Class::One('/'));
    assert(url + Seq::<char>::empty() =~= url);
}

// ---------------------------------------------------------------------------
// Probes
// ---------------------------------------------------------------------------

/// A probe first asks for the status below the address; a gateway that does not
/// answer is not reachable, and the reason is shown.
pub proof fn law_a_probe_asks_for_the_status(url: Seq<char>, why: Seq<char>)
    ensures
        probe_of(url, Seq::empty()) == ProbeStepV::Fetch(base_url_of(url) + "/api/status"@),
        ({
            let d = probe_of(url, seq![Err(why)]);
            &&& d is Done
            &&& !d->Done_0.reachable
            &&& d->Done_0.error == Some(why)
            &&& d->Done_0.base_url == base_url_of(url)
            &&& d->Done_0.version is None
        }),
{
}

/// A gateway that wants no login is reachable with a token. One that does is
/// asked for its providers, which are then shown.
pub proof fn law_a_probe_tells_how_to_log_in(
    url: Seq<char>,
    status: JsonV,
    second: Result<JsonV, Seq<char>>,
)
    ensures
        ({
            let one: Seq<Result<JsonV, Seq<char>>> = seq![Ok(status)];
            let two: Seq<Result<JsonV, Seq<char>>> = seq![Ok(status), second];
            let login = field(status, "auth_required"@) == Some(JsonV::Bool(true));
            &&& !login ==> probe_of(url, one) is Done && probe_of(url, one)->Done_0.auth_mode
                == "token"@ && probe_of(url, one)->Done_0.reachable && probe_of(
                url,
                one,
            )->Done_0.version == str_field(status, "version"@) && probe_of(
                url,
                one,
            )->Done_0.providers.len() == 0 && probe_of(url, one)->Done_0.error is None
            &&& login ==> probe_of(url, one) == ProbeStepV::Fetch(
                base_url_of(url) + "/api/auth/providers"@,
            )
            &&& login ==> probe_of(url, two) is Done && probe_of(url, two)->Done_0.auth_mode
                == "oauth"@ && probe_of(url, two)->Done_0.reachable && probe_of(
                url,
                two,
            )->Done_0.providers == listed_providers(second) && probe_of(
                url,
                two,
            )->Done_0.version == str_field(status, "version"@)
        }),
{
}

/// Providers are shown one by one in their order, each under its name; one
/// without a name is left out. A provider without a name to show is shown by its
/// own.
pub proof fn law_providers_are_shown_by_name(v: Seq<JsonV>, p: JsonV, body: JsonV, n: Seq<char>)
    requires
        str_field(p, "name"@) == Some(n),
        n.len() > 0,
        field(body, "providers"@) == Some(JsonV::Arr(v.push(p))),
    ensures
        listed_providers(Ok(body)).len() == providers_in(v).len() + 1,
        listed_providers(Ok(body)).drop_last() == providers_in(v),
        ({
            let s = listed_providers(Ok(body)).last();
            &&& field(s, "name"@) == Some(JsonV::Str(n))
            &&& field(s, "displayName"@) == Some(
                JsonV::Str(
                    match str_field(p, "display_name"@) {
                        Some(d) => d,
                        None => n,
                    },
                ),
            )
            &&& field(s, "supportsPassword"@) == Some(
                JsonV::Bool(field(p, "supports_password"@) == Some(JsonV::Bool(true))),
            )
        }),
        forall|q: JsonV|
            str_field(q, "name"@) is None ==> providers_in(#[trigger] v.push(q)) == providers_in(
                v,
            ),
        listed_providers(Err(n)).len() == 0,
{
    broadcast use lemma_found_after_put;

    assert(v.push(p).drop_last() =~= v);
    reveal_strlit("name");
    reveal_strlit("displayName");
    reveal_strlit("supportsPassword");
    assert("name"@.len() == 4 && "displayName"@.len() == 11 && "supportsPassword"@.len() == 16);
    assert(listed_providers(Ok(body)).drop_last() =~= providers_in(v));
    assert forall|q: JsonV| str_field(q, "name"@) is None implies providers_in(
        #[trigger] v.push(q),
    ) == providers_in(v) by {
        assert(v.push(q).drop_last() =~= v);
    }
}

/// A test of what is typed probes the typed address; one of SSH, and one without
/// an address, is refused. No more than a quarter of a mebibyte is read.
pub proof fn law_a_test_probes_what_is_typed(
    payload: JsonV,
    replies: Seq<Result<JsonV, Seq<char>>>,
    url: Seq<char>,
    n: u64,
)
    ensures
        str_field(payload, "mode"@) != Some("ssh"@) && str_field(payload, "remoteUrl"@) == Some(url)
            && trim_text(url) ==> config_test_of(payload, replies) == Ok::<ProbeStepV, Seq<char>>(
            probe_of(url, replies),
        ),
        str_field(payload, "mode"@) == Some("ssh"@) ==> config_test_of(payload, replies) is Err,
        str_field(payload, "remoteUrl"@) is None ==> config_test_of(payload, replies) is Err,
        trim_text(url) ==> address_probe_of(url, replies) == Ok::<ProbeStepV, Seq<char>>(
            probe_of(url, replies),
        ),
        only(url, Class::White) ==> address_probe_of(url, replies) is Err,
        probe_size_guard(n) is Ok <==> n <= 256 * 1024,
{
    lemma_mode_names();
    law_blank_trims_to_nothing(Seq::empty(), Class::White);
    if trim_text(url) {
        lemma_as_it_is(url);
    }
    if only(url, Class::White) {
        law_blank_trims_to_nothing(url, Class::White);
    }
}

} // verus!
