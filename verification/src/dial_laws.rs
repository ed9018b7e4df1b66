//! How registered connections are dialled, shown, tested and updated: what is
//! sent where, and what an answer says.

use crate::commands::{ws_url_of, BackendV};
use crate::connections_dial::{
    api_target_of, descriptor_for, descriptor_of_entry, entry_auth, entry_base, excluded_ids,
    fresh_id, lacks_session_token, lacks_url, names_in, no_oauth, recall, refused_update, reply_of,
    reported_id, request_guard, sendable, shown_entry, shown_quarantined, shown_registry,
    strings_in, target_of_entry, test_answer, test_of_entry, test_step_for, token_of_entry,
    update_all_of, update_request, update_row_of, update_rows, ws_of_entry, ws_url_for, ApiTargetV,
    TestStepV,
};
use crate::json::{field, lemma_found_after_put, put, str_field, Fields, JsonV};
use crate::outside::{lossy_text, UrlV};
use crate::registry::{lemma_position, usable_header, ConnV, QuarantinedV, RegistryV};
use crate::text::{dec, trimmed, Class};
use crate::text_laws::{
    law_blank_trims_to_nothing, law_trimming_takes_off_the_ends, only, trim_text,
};
use vstd::prelude::*;

verus! {

// ---------------------------------------------------------------------------
// What an entry is dialled with
// ---------------------------------------------------------------------------

proof fn lemma_trimmed_between(a: Seq<char>, t: Seq<char>, z: Seq<char>)
    requires
        trim_text(t),
        only(a, Class::White),
        only(z, Class::White),
    ensures
        trimmed(a + t + z) == t,
{
    law_trimming_takes_off_the_ends(a, t, z, Class::White);
}

/// A gateway that is dialled with a token: the token `t` at the address `b`,
/// whatever white space and trailing slashes they are stored with.
pub open spec fn dialled_at(c: ConnV, b: Seq<char>, t: Seq<char>) -> bool {
    &&& c.kind == "remote"@ || c.kind == "cloud"@
    &&& c.auth_mode != Some("oauth"@)
    &&& trim_text(t)
    &&& b.len() > 0 && b[0] != '/' && b.last() != '/'
    &&& exists|a: Seq<char>, z: Seq<char>|
        only(a, Class::White) && only(z, Class::White) && c.token == Some(
            JsonV::Str(#[trigger] (a + t + z)),
        )
    &&& exists|s: Seq<char>|
        only(s, Class::One('/')) && c.url == Some(#[trigger] (b + s))
}

proof fn lemma_names()
    ensures
        "id"@.len() == 2 && "id"@[0] == 'i',
        "ok"@.len() == 2 && "ok"@[0] == 'o',
        "org"@.len() == 3 && "org"@[0] == 'o',
        "ssh"@.len() == 3 && "ssh"@[0] == 's',
        "url"@.len() == 3 && "url"@[0] == 'u',
        "host"@.len() == 4 && "host"@[0] == 'h',
        "kind"@.len() == 4 && "kind"@[0] == 'k',
        "logs"@.len() == 4 && "logs"@[0] == 'l',
        "mode"@.len() == 4 && "mode"@[0] == 'm',
        "port"@.len() == 4 && "port"@[0] == 'p',
        "user"@.len() == 4 && "user"@[0] == 'u',
        "cloud"@.len() == 5 && "cloud"@[2] == 'o',
        "error"@.len() == 5 && "error"@[2] == 'r',
        "label"@.len() == 5 && "label"@[2] == 'b',
        "local"@.len() == 5 && "local"@[2] == 'c',
        "oauth"@.len() == 5 && "oauth"@[2] == 'u',
        "token"@.len() == 5 && "token"@[2] == 'k',
        "value"@.len() == 5 && "value"@[2] == 'l',
        "wsUrl"@.len() == 5 && "wsUrl"@[2] == 'U',
        "detail"@.len() == 6 && "detail"@[2] == 't',
        "reason"@.len() == 6 && "reason"@[2] == 'a',
        "remote"@.len() == 6 && "remote"@[2] == 'm',
        "scopes"@.len() == 6 && "scopes"@[2] == 'o',
        "source"@.len() == 6 && "source"@[2] == 'u',
        "baseUrl"@.len() == 7 && "baseUrl"@[0] == 'b' && "baseUrl"@[2] == 's',
        "headers"@.len() == 7 && "headers"@[0] == 'h' && "headers"@[2] == 'a',
        "http://"@.len() == 7 && "http://"@[0] == 'h' && "http://"@[2] == 't',
        "keyPath"@.len() == 7 && "keyPath"@[0] == 'k' && "keyPath"@[2] == 'y',
        "message"@.len() == 7 && "message"@[0] == 'm' && "message"@[2] == 's',
        "outcome"@.len() == 7 && "outcome"@[0] == 'o' && "outcome"@[2] == 't',
        "primary"@.len() == 7 && "primary"@[0] == 'p' && "primary"@[2] == 'i',
        "profile"@.len() == 7 && "profile"@[0] == 'p' && "profile"@[2] == 'o',
        "receipt"@.len() == 7 && "receipt"@[0] == 'r' && "receipt"@[2] == 'c',
        "results"@.len() == 7 && "results"@[0] == 'r' && "results"@[2] == 's',
        "skipped"@.len() == 7 && "skipped"@[0] == 's' && "skipped"@[2] == 'i',
        "version"@.len() == 7 && "version"@[0] == 'v' && "version"@[2] == 'r',
        "authMode"@.len() == 8 && "authMode"@[1] == 'u',
        "encoding"@.len() == 8 && "encoding"@[1] == 'n',
        "exitCode"@.len() == 8 && "exitCode"@[1] == 'x',
        "https://"@.len() == 8 && "https://"@[1] == 't',
        "lastUsed"@.len() == 8 && "lastUsed"@[1] == 'a',
        "tokenSet"@.len() == 8 && "tokenSet"@[1] == 'o',
        "updateOk"@.len() == 8 && "updateOk"@[1] == 'p',
        "installId"@.len() == 9 && "installId"@[4] == 'a',
        "reachable"@.len() == 9 && "reachable"@[4] == 'h',
        "restoreOk"@.len() == 9 && "restoreOk"@[4] == 'o',
        "launchMode"@.len() == 10 && "launchMode"@[6] == 'M',
        "remoteHost"@.len() == 10 && "remoteHost"@[6] == 'H',
        "remoteKind"@.len() == 10 && "remoteKind"@[6] == 'K',
        "connections"@.len() == 11 && "connections"@[0] == 'c',
        "headerNames"@.len() == 11 && "headerNames"@[0] == 'h',
        "quarantined"@.len() == 11 && "quarantined"@[0] == 'q',
        "connectionId"@.len() == 12 && "connectionId"@[0] == 'c',
        "isFullscreen"@.len() == 12 && "isFullscreen"@[0] == 'i',
        "tokenPreview"@.len() == 12 && "tokenPreview"@[0] == 't',
        "correlationId"@.len() == 13 && "correlationId"@[0] == 'c',
        "remoteProfile"@.len() == 13 && "remoteProfile"@[0] == 'r',
        "registryScoped"@.len() == 14,
        "remoteHermesPath"@.len() == 16,
        "nativeOverlayWidth"@.len() == 18 && "nativeOverlayWidth"@[0] == 'n',
        "secureTokenStorage"@.len() == 18 && "secureTokenStorage"@[0] == 's',
        "windowButtonPosition"@.len() == 20,
{
    reveal_strlit("id");
    reveal_strlit("ok");
    reveal_strlit("org");
    reveal_strlit("ssh");
    reveal_strlit("url");
    reveal_strlit("host");
    reveal_strlit("kind");
    reveal_strlit("logs");
    reveal_strlit("mode");
    reveal_strlit("port");
    reveal_strlit("user");
    reveal_strlit("cloud");
    reveal_strlit("error");
    reveal_strlit("label");
    reveal_strlit("local");
    reveal_strlit("oauth");
    reveal_strlit("token");
    reveal_strlit("value");
    reveal_strlit("wsUrl");
    reveal_strlit("detail");
    reveal_strlit("reason");
    reveal_strlit("remote");
    reveal_strlit("scopes");
    reveal_strlit("source");
    reveal_strlit("baseUrl");
    reveal_strlit("headers");
    reveal_strlit("http://");
    reveal_strlit("keyPath");
    reveal_strlit("message");
    reveal_strlit("outcome");
    reveal_strlit("primary");
    reveal_strlit("profile");
    reveal_strlit("receipt");
    reveal_strlit("results");
    reveal_strlit("skipped");
    reveal_strlit("version");
    reveal_strlit("authMode");
    reveal_strlit("encoding");
    reveal_strlit("exitCode");
    reveal_strlit("https://");
    reveal_strlit("lastUsed");
    reveal_strlit("tokenSet");
    reveal_strlit("updateOk");
    reveal_strlit("installId");
    reveal_strlit("reachable");
    reveal_strlit("restoreOk");
    reveal_strlit("launchMode");
    reveal_strlit("remoteHost");
    reveal_strlit("remoteKind");
    reveal_strlit("connections");
    reveal_strlit("headerNames");
    reveal_strlit("quarantined");
    reveal_strlit("connectionId");
    reveal_strlit("isFullscreen");
    reveal_strlit("tokenPreview");
    reveal_strlit("correlationId");
    reveal_strlit("remoteProfile");
    reveal_strlit("registryScoped");
    reveal_strlit("remoteHermesPath");
    reveal_strlit("nativeOverlayWidth");
    reveal_strlit("secureTokenStorage");
    reveal_strlit("windowButtonPosition");
}

proof fn lemma_dialled(c: ConnV, b: Seq<char>, t: Seq<char>)
    requires
        dialled_at(c, b, t),
    ensures
        token_of_entry(c) == t,
        entry_base(c) == b,
        entry_auth(c) != "oauth"@,
{
    lemma_names();
    let (a, z): (Seq<char>, Seq<char>) = choose|a: Seq<char>, z: Seq<char>|
        only(a, Class::White) && only(z, Class::White) && c.token == Some(
            JsonV::Str(#[trigger] (a + t + z)),
        );
    lemma_trimmed_between(a, t, z);
    let s = choose|s: Seq<char>|
        only(s, Class::One('/')) && c.url == Some(#[trigger] (b + s));
    law_trimming_takes_off_the_ends(Seq::empty(), b, s, Class::One('/'));
}

/// A request to a gateway goes to its address with its own token and its own
/// headers.
pub proof fn law_a_gateway_is_asked_with_its_own_token(c: ConnV, b: Seq<char>, t: Seq<char>)
    requires
        dialled_at(c, b, t),
    ensures
        target_of_entry(c) == Ok::<Option<ApiTargetV>, Seq<char>>(
            Some((ApiTargetV { base: b, token: t, headers: c.headers })),
        ),
        test_of_entry(c) == TestStepV::AskRemote(
            (ApiTargetV { base: b, token: t, headers: c.headers }),
        ),
{
    lemma_dialled(c, b, t);
    lemma_names();
}

/// The renderer dials a gateway at its address, with its token and its id, and
/// over its socket.
pub proof fn law_a_gateway_is_described_as_stored(
    c: ConnV,
    b: Seq<char>,
    t: Seq<char>,
    profile: Option<Seq<char>>,
)
    requires
        dialled_at(c, b, t),
    ensures
        ({
            let d = descriptor_of_entry(c, profile);
            &&& d is Ok
            &&& field(d->Ok_0, "baseUrl"@) == Some(JsonV::Str(b))
            &&& field(d->Ok_0, "token"@) == Some(JsonV::Str(t))
            &&& field(d->Ok_0, "connectionId"@) == Some(JsonV::Str(c.id))
            &&& field(d->Ok_0, "mode"@) == Some(JsonV::Str("remote"@))
            &&& field(d->Ok_0, "remoteKind"@) == Some(
                JsonV::Str(
                    if c.kind == "cloud"@ {
                        "cloud"@
                    } else {
                        "url"@
                    },
                ),
            )
            &&& field(d->Ok_0, "authMode"@) == Some(
                JsonV::Str(
                    match c.auth_mode {
                        Some(m) => m,
                        None => "token"@,
                    },
                ),
            )
            &&& field(d->Ok_0, "profile"@) == Some(
                match profile {
                    Some(p) => JsonV::Str(p),
                    None => JsonV::Null,
                },
            )
            &&& field(d->Ok_0, "registryScoped"@) == Some(JsonV::Bool(true))
            &&& field(d->Ok_0, "wsUrl"@) == Some(JsonV::Str(ws_url_of(b, t)))
        }),
        ({
            let w = ws_of_entry(c);
            &&& w is Ok
            &&& field(w->Ok_0, "ok"@) == Some(JsonV::Bool(true))
            &&& field(w->Ok_0, "wsUrl"@) == Some(JsonV::Str(ws_url_of(b, t)))
            &&& field(w->Ok_0, "baseUrl"@) == Some(JsonV::Str(b))
        }),
{
    broadcast use lemma_found_after_put;

    lemma_dialled(c, b, t);
    lemma_names();
}

/// The socket of a backend is below its own address, over `wss` where the
/// address is `https` and over `ws` where it is `http`, and carries the token
/// where there is one.
pub proof fn law_a_socket_follows_its_address(rest: Seq<char>, t: Seq<char>)
    ensures
        ws_url_of("https://"@ + rest, t) == if t.len() == 0 {
            "wss://"@ + rest + "/api/ws"@
        } else {
            "wss://"@ + rest + "/api/ws?token="@ + t
        },
        ws_url_of("http://"@ + rest, t) == if t.len() == 0 {
            "ws://"@ + rest + "/api/ws"@
        } else {
            "ws://"@ + rest + "/api/ws?token="@ + t
        },
{
    reveal_strlit("https://");
    reveal_strlit("http://");
    let s = "https://"@ + rest;
    assert(s.take(8) =~= "https://"@);
    assert(s.skip(8) =~= rest);
    let h = "http://"@ + rest;
    assert(h.take(7) =~= "http://"@);
    assert(h.skip(7) =~= rest);
    assert(h[4] == ':');
    assert("https://"@[4] == 's');
    if h.len() >= 8 {
        assert(h.take(8)[4] == ':');
    }
}

/// A gateway without a token, one that wants an `OAuth` login, one without an
/// address and an `ssh` entry are refused, and nothing is asked on their behalf.
pub proof fn law_what_cannot_be_dialled_is_refused(c: ConnV)
    ensures
        c.kind == "ssh"@ ==> target_of_entry(c) is Err && descriptor_of_entry(c, None) is Err
            && ws_of_entry(c) is Err && (test_of_entry(c) matches TestStepV::Answer(a) && field(
            a,
            "ok"@,
        ) == Some(JsonV::Bool(false)) && field(a, "reachable"@) == Some(JsonV::Bool(false))),
        (c.kind == "remote"@ || c.kind == "cloud"@) && c.auth_mode == Some("oauth"@)
            ==> target_of_entry(c) == Err::<Option<ApiTargetV>, Seq<char>>(no_oauth())
            && test_of_entry(c) is Answer && (ws_of_entry(c) matches Ok(w) && field(w, "ok"@)
            == Some(JsonV::Bool(false))),
        (c.kind == "remote"@ || c.kind == "cloud"@) && c.auth_mode != Some("oauth"@)
            && !(c.token matches Some(JsonV::Str(_))) ==> target_of_entry(c) == Err::<
            Option<ApiTargetV>,
            Seq<char>,
        >(lacks_session_token(c.label)) && test_of_entry(c) is Answer && descriptor_of_entry(
            c,
            None,
        ) is Err && (ws_of_entry(c) matches Ok(w) && field(w, "ok"@) == Some(
            JsonV::Bool(false),
        )),
        (c.kind == "remote"@ || c.kind == "cloud"@) && c.url is None ==> target_of_entry(c) is Err
            && descriptor_of_entry(c, None) == Err::<JsonV, Seq<char>>(lacks_url(c.label)),
        c.kind == "local"@ ==> target_of_entry(c) == Ok::<Option<ApiTargetV>, Seq<char>>(None)
            && test_of_entry(c) == TestStepV::AskLocal,
{
    broadcast use lemma_found_after_put;

    reveal_strlit("sshError");
    assert("sshError"@.len() == 8);
    lemma_names();
}

/// A connection is looked up by its id: the local one and none at all are the
/// managed backend, an unknown one is refused, and the first with the id is the
/// one that is dialled.
pub proof fn law_a_connection_is_dialled_by_its_id(
    r: RegistryV,
    i: int,
    b: BackendV,
    payload: JsonV,
    id: Seq<char>,
)
    requires
        0 <= i < r.connections.len(),
        r.connections[i].id == id,
        forall|j: int| 0 <= j < i ==> (#[trigger] r.connections[j]).id != id,
        id.len() > 0,
        id != "local"@,
        trim_text(id),
        str_field(payload, "connectionId"@) == Some(id),
    ensures
        api_target_of(r, id) == target_of_entry(r.connections[i]),
        str_field(payload, "profile"@) is None ==> descriptor_for(payload, b, r)
            == descriptor_of_entry(r.connections[i], None),
        forall|p: Seq<char>|
            str_field(payload, "profile"@) == Some(p) && trim_text(p) ==> descriptor_for(
                payload,
                b,
                r,
            ) == #[trigger] descriptor_of_entry(r.connections[i], Some(p)),
        ws_url_for(payload, b, r) == ws_of_entry(r.connections[i]),
        test_step_for(r, id) == Ok::<TestStepV, Seq<char>>(test_of_entry(r.connections[i])),
{
    lemma_position(r.connections, id, 0);
    lemma_trimmed_between(Seq::empty(), id, Seq::empty());
    assert(Seq::<char>::empty() + id + Seq::<char>::empty() =~= id);
    assert forall|p: Seq<char>|
        str_field(payload, "profile"@) == Some(p) && trim_text(p) implies descriptor_for(
        payload,
        b,
        r,
    ) == #[trigger] descriptor_of_entry(r.connections[i], Some(p)) by {
        lemma_trimmed_between(Seq::empty(), p, Seq::empty());
        assert(Seq::<char>::empty() + p + Seq::<char>::empty() =~= p);
    }
}

/// An id that no entry has is refused everywhere, and never falls back to the
/// managed backend.
pub proof fn law_an_unknown_connection_is_refused(
    r: RegistryV,
    b: BackendV,
    payload: JsonV,
    id: Seq<char>,
)
    requires
        forall|j: int| 0 <= j < r.connections.len() ==> (#[trigger] r.connections[j]).id != id,
        id != "local"@,
        trim_text(id),
        str_field(payload, "connectionId"@) == Some(id),
    ensures
        api_target_of(r, id) is Err,
        descriptor_for(payload, b, r) is Err,
        ws_url_for(payload, b, r) is Err,
        test_step_for(r, id) is Err,
{
    lemma_position(r.connections, id, 0);
    lemma_trimmed_between(Seq::empty(), id, Seq::empty());
    assert(Seq::<char>::empty() + id + Seq::<char>::empty() =~= id);
}

/// A payload that names no connection, or the local one, gets the managed
/// backend: its address, its token and its socket.
pub proof fn law_no_connection_is_the_managed_backend(
    r: RegistryV,
    base: Seq<char>,
    t: Seq<char>,
    ready: bool,
    payload: JsonV,
)
    requires
        base.len() > 0,
        base[0] != '/',
        base.last() != '/',
        str_field(payload, "connectionId"@) is None || str_field(payload, "connectionId"@) == Some(
            "local"@,
        ),
    ensures
        api_target_of(r, "local"@) == Ok::<Option<ApiTargetV>, Seq<char>>(None),
        api_target_of(r, Seq::empty()) == Ok::<Option<ApiTargetV>, Seq<char>>(None),
        ({
            let b = BackendV { base_url: base, token: Some(t), ready };
            let d = descriptor_for(payload, b, r);
            let w = ws_url_for(payload, b, r);
            &&& d is Ok && w is Ok
            &&& field(d->Ok_0, "baseUrl"@) == Some(JsonV::Str(base))
            &&& field(d->Ok_0, "token"@) == Some(JsonV::Str(t))
            &&& field(d->Ok_0, "wsUrl"@) == Some(JsonV::Str(ws_url_of(base, t)))
            &&& field(d->Ok_0, "mode"@) == Some(JsonV::Str("local"@))
            &&& field(d->Ok_0, "connectionId"@) == Some(JsonV::Str("local"@))
            &&& field(w->Ok_0, "ok"@) == Some(JsonV::Bool(true))
            &&& field(w->Ok_0, "wsUrl"@) == Some(JsonV::Str(ws_url_of(base, t)))
            &&& field(w->Ok_0, "baseUrl"@) == Some(JsonV::Str(base))
        }),
{
    broadcast use lemma_found_after_put;

    lemma_names();
    assert(trim_text("local"@)) by {
        reveal_strlit("local");
    }
    lemma_trimmed_between(Seq::empty(), "local"@, Seq::empty());
    assert(Seq::<char>::empty() + "local"@ + Seq::<char>::empty() =~= "local"@);
    law_blank_trims_to_nothing(Seq::empty(), Class::White);
    law_trimming_takes_off_the_ends(Seq::empty(), base, Seq::empty(), Class::One('/'));
    assert(base + Seq::<char>::empty() =~= base);
    lemma_names();
}

// ---------------------------------------------------------------------------
// Headers, addresses and replies
// ---------------------------------------------------------------------------

/// Headers are sent one by one in their order, each under its own name with its
/// own text; one whose text is blank, or that is no plain text, is left out.
pub proof fn law_headers_are_sent_as_stored(o: Fields, k: Seq<char>, t: Seq<char>, v: JsonV)
    requires
        trim_text(t),
    ensures
        sendable(o.push((k, JsonV::Str(t)))) == sendable(o).push((k, t)),
        v is Null || v is Bool || v is Int || v is Arr ==> sendable(o.push((k, v))) == sendable(o),
        forall|w: Seq<char>|
            only(w, Class::White) ==> sendable(#[trigger] o.push((k, JsonV::Str(w)))) == sendable(
                o,
            ),
{
    lemma_trimmed_between(Seq::empty(), t, Seq::empty());
    assert(Seq::<char>::empty() + t + Seq::<char>::empty() =~= t);
    assert(o.push((k, JsonV::Str(t))).drop_last() =~= o);
    assert(o.push((k, v)).drop_last() =~= o);
    assert forall|w: Seq<char>| only(w, Class::White) implies sendable(
        #[trigger] o.push((k, JsonV::Str(w))),
    ) == sendable(o) by {
        law_blank_trims_to_nothing(w, Class::White);
        assert(o.push((k, JsonV::Str(w))).drop_last() =~= o);
    }
}

/// A header that is stored as an envelope is sent with the text in it where the
/// envelope is plain, and not at all where it is anything else.
pub proof fn law_envelopes_are_opened_where_plain(e: Seq<char>, t: Seq<char>)
    requires
        trim_text(t),
    ensures
        ({
            let o = put(
                put(Seq::empty(), "encoding"@, JsonV::Str(e)),
                "value"@,
                JsonV::Str(t),
            );
            usable_header(JsonV::Obj(o)) == if e == "plain"@ {
                Some(t)
            } else {
                None
            }
        }),
{
    broadcast use lemma_found_after_put;

    lemma_trimmed_between(Seq::empty(), t, Seq::empty());
    assert(Seq::<char>::empty() + t + Seq::<char>::empty() =~= t);
    lemma_names();
}

/// Only `http` and `https` addresses are asked.
pub proof fn law_only_web_addresses_are_asked(url: Seq<char>, u: UrlV)
    ensures
        request_guard(url, Some(u)) is Ok <==> u.scheme == "http"@ || u.scheme == "https"@,
        request_guard(url, None) is Err,
{
}

/// A reply counts only where its status says success, it is no longer than half
/// a mebibyte and it is JSON; it then is that JSON. A failure shows its status
/// and its text.
pub proof fn law_a_reply_is_its_json(status: u16, bytes: Seq<u8>, parsed: Option<JsonV>, j: JsonV)
    ensures
        reply_of(status, bytes, parsed) == Ok::<JsonV, Seq<char>>(j) <==> parsed == Some(j)
            && 200 <= status < 300 && bytes.len() <= 512 * 1024,
        bytes.len() <= 512 * 1024 && !(200 <= status < 300) ==> (reply_of(status, bytes, parsed)
            matches Err(e) && e == "gateway "@ + dec(status as nat) + ": "@ + lossy_text(bytes)),
{
}

// ---------------------------------------------------------------------------
// What leaves the process
// ---------------------------------------------------------------------------

/// An entry is shown under its own id, kind and label, with the fields that it
/// has, the names of its headers, and whether it has a token.
#[verifier::rlimit(40)]
pub proof fn law_an_entry_is_shown_as_stored(c: ConnV, install_id: Option<Seq<char>>)
    ensures
        ({
            let s = shown_entry(c, install_id);
            &&& field(s, "id"@) == Some(JsonV::Str(c.id))
            &&& field(s, "kind"@) == Some(JsonV::Str(c.kind))
            &&& field(s, "label"@) == Some(JsonV::Str(c.label))
            &&& str_field(s, "url"@) == c.url
            &&& str_field(s, "authMode"@) == c.auth_mode
            &&& str_field(s, "org"@) == c.org
            &&& str_field(s, "host"@) == c.host
            &&& str_field(s, "user"@) == c.user
            &&& field(s, "port"@) == (match c.port {
                Some(p) => Some(JsonV::Int(p)),
                None => None,
            })
            &&& str_field(s, "keyPath"@) == c.key_path
            &&& str_field(s, "remoteHermesPath"@) == c.remote_hermes_path
            &&& str_field(s, "remoteProfile"@) == c.remote_profile
            &&& str_field(s, "installId"@) == install_id
            &&& field(s, "token"@) is None
            &&& field(s, "headers"@) is None
        }),
{
    broadcast use lemma_found_after_put;

    lemma_names();
}

/// Of a token it is shown that there is one, and its first eight characters; of
/// headers, their names.
#[verifier::rlimit(40)]
pub proof fn law_a_secret_is_shown_by_its_start(
    c: ConnV,
    install_id: Option<Seq<char>>,
    t: Seq<char>,
)
    requires
        trim_text(t),
        c.token == Some(JsonV::Str(t)),
    ensures
        field(shown_entry(c, install_id), "tokenSet"@) == Some(JsonV::Bool(true)),
        str_field(shown_entry(c, install_id), "tokenPreview"@) == Some(
            (if t.len() <= 8 {
                t
            } else {
                t.take(8)
            }) + "…"@,
        ),
        field(shown_entry((ConnV { token: None, ..c }), install_id), "tokenSet"@) == Some(
            JsonV::Bool(false),
        ),
        field(shown_entry((ConnV { token: None, ..c }), install_id), "tokenPreview"@) == Some(
            JsonV::Null,
        ),
        ({
            let n = field(shown_entry(c, install_id), "headerNames"@);
            match c.headers {
                None => n == Some(JsonV::Arr(Seq::empty())),
                Some(h) => n matches Some(JsonV::Arr(v)) && v.len() == h.len() && forall|i: int|
                    0 <= i < h.len() ==> #[trigger] v[i] == JsonV::Str(h[i].0),
            }
        }),
{
    broadcast use lemma_found_after_put;

    lemma_trimmed_between(Seq::empty(), t, Seq::empty());
    assert(Seq::<char>::empty() + t + Seq::<char>::empty() =~= t);
    lemma_names();
    if c.headers is None {
        let n = field(shown_entry(c, install_id), "headerNames"@);
        assert(names_in(c.headers).map_values(|s: Seq<char>| JsonV::Str(s)) =~= Seq::empty());
    }
}

/// The registry is shown with every entry in its order, with its choices and
/// with what was set aside.
pub proof fn law_a_registry_is_shown_whole(r: RegistryV, ids: Seq<Option<Seq<char>>>)
    requires
        ids.len() == r.connections.len(),
    ensures
        ({
            let s = shown_registry(r, ids);
            &&& field(s, "primary"@) == Some(JsonV::Str(r.primary))
            &&& field(s, "lastUsed"@) == Some(JsonV::Str(r.last_used))
            &&& field(s, "launchMode"@) == Some(JsonV::Str(r.launch_mode))
            &&& field(s, "version"@) == Some(JsonV::Int(r.version as i64))
            &&& field(s, "secureTokenStorage"@) == Some(JsonV::Bool(false))
            &&& field(s, "connections"@) matches Some(JsonV::Arr(v)) && v.len()
                == r.connections.len() && forall|i: int|
                0 <= i < v.len() ==> #[trigger] v[i] == shown_entry(r.connections[i], ids[i])
            &&& field(s, "quarantined"@) is Some
        }),
        ({
            let s = shown_registry(r, ids);
            match r.quarantined {
                None => field(s, "quarantined"@) == Some(JsonV::Arr(Seq::empty())),
                Some(q) => field(s, "quarantined"@) matches Some(JsonV::Arr(v)) && v.len()
                    == q.len() && forall|i: int|
                    0 <= i < v.len() ==> #[trigger] v[i] == shown_quarantined(q[i]),
            }
        }),
{
    broadcast use lemma_found_after_put;

    lemma_names();
}

/// Of what was set aside, the reason and the label are shown and nothing else.
pub proof fn law_what_was_set_aside_is_shown_by_reason(q: QuarantinedV)
    ensures
        field(shown_quarantined(q), "reason"@) == Some(JsonV::Str(q.reason)),
        match str_field(q.entry, "label"@) {
            Some(l) => field(shown_quarantined(q), "label"@) == Some(JsonV::Str(l)),
            None => field(shown_quarantined(q), "label"@) == Some(JsonV::Str(Seq::empty())),
        },
        forall|k: Seq<char>|
            k != "reason"@ && k != "label"@ ==> #[trigger] field(shown_quarantined(q), k) is None,
{
    broadcast use lemma_found_after_put;

    lemma_names();
}

// ---------------------------------------------------------------------------
// Identities
// ---------------------------------------------------------------------------

/// An identity that was reported is used for five minutes and no longer; that
/// there was none, for a minute. What was never reported is not known.
pub proof fn law_an_identity_lasts_five_minutes(id: Seq<char>, at: u64, now: u64)
    requires
        now >= at,
    ensures
        fresh_id(Some((Some(id), at)), now) == if now - at < 5 * 60 * 1000 {
            Some(id)
        } else {
            None
        },
        fresh_id(Some((None, at)), now) is None,
        fresh_id(None, now) is None,
{
}

/// An identity is the text that a status carries, when it is not blank.
pub proof fn law_an_identity_is_the_one_reported(status: JsonV, id: Seq<char>)
    ensures
        str_field(status, "install_id"@) == Some(id) && trim_text(id) ==> reported_id(status)
            == Some(id),
        str_field(status, "install_id"@) == Some(id) && only(id, Class::White) ==> reported_id(
            status,
        ) is None,
        str_field(status, "install_id"@) is None ==> reported_id(status) is None,
{
    if trim_text(id) {
        lemma_trimmed_between(Seq::empty(), id, Seq::empty());
        assert(Seq::<char>::empty() + id + Seq::<char>::empty() =~= id);
    }
    if only(id, Class::White) {
        law_blank_trims_to_nothing(id, Class::White);
    }
}

/// What was noted last under an id is what is recalled; other ids are not
/// touched by it.
pub proof fn law_the_last_note_counts(
    k: Seq<(Seq<char>, (Option<Seq<char>>, u64))>,
    id: Seq<char>,
    v: (Option<Seq<char>>, u64),
    other: Seq<char>,
)
    ensures
        recall(k.push((id, v)), other) == if other == id {
            Some(v)
        } else {
            recall(k, other)
        },
{
    assert(k.push((id, v)).drop_last() =~= k);
}

// ---------------------------------------------------------------------------
// Tests and updates
// ---------------------------------------------------------------------------

/// A test succeeds exactly where the backend replied; it then shows the version
/// that the backend told, and otherwise what went wrong.
pub proof fn law_a_test_tells_what_was_replied(base: Seq<char>, reply: Result<JsonV, Seq<char>>)
    ensures
        ({
            let a = test_answer(base, reply);
            &&& field(a, "ok"@) == Some(JsonV::Bool(reply is Ok))
            &&& field(a, "reachable"@) == Some(JsonV::Bool(reply is Ok))
            &&& field(a, "baseUrl"@) == Some(JsonV::Str(base))
            &&& reply matches Ok(s) ==> field(a, "version"@) == Some(
                match str_field(s, "version"@) {
                    Some(v) => JsonV::Str(v),
                    None => JsonV::Null,
                },
            ) && field(a, "error"@) is None
            &&& reply matches Err(e) ==> field(a, "error"@) == Some(JsonV::Str(e)) && field(
                a,
                "version"@,
            ) is None
        }),
{
    broadcast use lemma_found_after_put;

    lemma_names();
}

/// A refused update names the connection and the request that it refuses, and
/// claims nothing done.
pub proof fn law_a_refused_update_names_its_connection(key: Seq<char>, correlation: Seq<char>)
    ensures
        ({
            let a = refused_update(key, correlation);
            &&& field(a, "connectionId"@) == Some(JsonV::Str(key))
            &&& field(a, "correlationId"@) == Some(JsonV::Str(correlation))
            &&& field(a, "ok"@) == Some(JsonV::Bool(false))
            &&& field(a, "updateOk"@) == Some(JsonV::Bool(false))
            &&& field(a, "restoreOk"@) == Some(JsonV::Bool(false))
            &&& field(a, "outcome"@) == Some(JsonV::Str("refused"@))
            &&& field(a, "exitCode"@) == Some(JsonV::Null)
        }),
{
    broadcast use lemma_found_after_put;

    lemma_names();
}

/// Only a remote gateway with a token and an address is asked to update, at its
/// own address and with its own token; nothing else is.
pub proof fn law_only_own_gateways_are_updated(c: ConnV, b: Seq<char>, t: Seq<char>)
    ensures
        dialled_at(c, b, t) && c.kind == "remote"@ ==> update_request(c) == Some(
            (ApiTargetV { base: b + "/api/hermes/update"@, token: t, headers: c.headers }),
        ),
        c.kind == "cloud"@ || c.kind == "ssh"@ || c.kind == "local"@ || c.auth_mode == Some(
            "oauth"@,
        ) || c.url is None || !(c.token matches Some(JsonV::Str(_))) ==> update_request(c) is None,
{
    lemma_names();
    if dialled_at(c, b, t) {
        lemma_dialled(c, b, t);
    }
}

/// A row tells of its own connection; it is a success only for a gateway that
/// was asked and did not refuse, and it carries what the gateway said.
#[verifier::rlimit(40)]
pub proof fn law_an_update_row_tells_what_was_replied(
    c: ConnV,
    reply: Option<Result<JsonV, Seq<char>>>,
)
    ensures
        ({
            let row = update_row_of(c, reply);
            let asked = c.kind != "cloud"@ && c.kind != "ssh"@ && c.kind != "local"@
                && c.auth_mode != Some("oauth"@);
            &&& field(row, "connectionId"@) == Some(JsonV::Str(c.id))
            &&& field(row, "label"@) == Some(JsonV::Str(c.label))
            &&& field(row, "kind"@) == Some(JsonV::Str(c.kind))
            &&& field(row, "ok"@) == Some(
                JsonV::Bool(
                    asked && (reply matches Some(Ok(body)) && field(body, "ok"@) != Some(
                        JsonV::Bool(false),
                    )),
                ),
            )
            &&& asked ==> (reply matches Some(Err(e)) ==> field(row, "error"@) == Some(
                JsonV::Str(e),
            ))
            &&& asked ==> (reply matches Some(Ok(body)) ==> (field(body, "message"@) matches Some(m)
                ==> field(row, "detail"@) == Some(m)))
            &&& c.kind == "cloud"@ || c.kind == "local"@ ==> field(row, "skipped"@) == Some(
                JsonV::Bool(true),
            )
        }),
{
    broadcast use lemma_found_after_put;

    lemma_names();
}

/// A refusal of a gateway is told as a skip, with the gateway's reason.
pub proof fn law_a_refusing_gateway_is_skipped(c: ConnV, body: JsonV, why: JsonV)
    requires
        c.kind == "remote"@,
        c.auth_mode != Some("oauth"@),
        field(body, "ok"@) == Some(JsonV::Bool(false)),
        field(body, "error"@) == Some(why),
    ensures
        field(update_row_of(c, Some(Ok(body))), "skipped"@) == Some(JsonV::Bool(true)),
        field(update_row_of(c, Some(Ok(body))), "reason"@) == Some(why),
{
    broadcast use lemma_found_after_put;

    lemma_names();
}

/// An update of all has a row for each connection that is not left out, in
/// their order, and no other.
pub proof fn law_updates_go_connection_by_connection(
    c: Seq<ConnV>,
    last: ConnV,
    exclude: Seq<Seq<char>>,
    replies: Seq<Option<Result<JsonV, Seq<char>>>>,
    reply: Option<Result<JsonV, Seq<char>>>,
)
    requires
        replies.len() == c.len(),
    ensures
        update_rows(c.push(last), exclude, replies.push(reply)) == if exclude.contains(last.id) {
            update_rows(c, exclude, replies)
        } else {
            update_rows(c, exclude, replies).push(update_row_of(last, reply))
        },
        update_rows(Seq::empty(), exclude, Seq::empty()) == Seq::<JsonV>::empty(),
{
    assert(c.push(last).drop_last() =~= c);
    lemma_later_replies_do_not_matter(c, exclude, replies, replies.push(reply));
}

proof fn lemma_later_replies_do_not_matter(
    c: Seq<ConnV>,
    exclude: Seq<Seq<char>>,
    a: Seq<Option<Result<JsonV, Seq<char>>>>,
    b: Seq<Option<Result<JsonV, Seq<char>>>>,
)
    requires
        a.len() >= c.len(),
        b.len() >= c.len(),
        forall|i: int| 0 <= i < c.len() ==> a[i] == #[trigger] b[i],
    ensures
        update_rows(c, exclude, a) == update_rows(c, exclude, b),
    decreases c.len(),
{
    if c.len() > 0 {
        lemma_later_replies_do_not_matter(c.drop_last(), exclude, a, b);
    }
}

/// The ids that an update leaves out are the texts of the list that is given;
/// without a list none is.
pub proof fn law_listed_ids_are_left_out(
    r: RegistryV,
    v: Seq<JsonV>,
    options: JsonV,
    id: Seq<char>,
    replies: Seq<Option<Result<JsonV, Seq<char>>>>,
)
    requires
        field(options, "excludeIds"@) == Some(JsonV::Arr(v)),
    ensures
        excluded_ids(Some(options)).contains(id) <==> v.contains(JsonV::Str(id)),
        !excluded_ids(None).contains(id),
        field(update_all_of(r, Some(options), replies), "ok"@) == Some(JsonV::Bool(true)),
        field(update_all_of(r, Some(options), replies), "results"@) == Some(
            JsonV::Arr(update_rows(r.connections, excluded_ids(Some(options)), replies)),
        ),
{
    broadcast use lemma_found_after_put;

    lemma_strings_in(v, id);
    lemma_names();
}

proof fn lemma_strings_in(v: Seq<JsonV>, id: Seq<char>)
    ensures
        strings_in(v).contains(id) <==> v.contains(JsonV::Str(id)),
    decreases v.len(),
{
    if v.len() > 0 {
        let w = v.drop_last();
        lemma_strings_in(w, id);
        assert(v =~= w.push(v.last()));
        if w.contains(JsonV::Str(id)) {
            let i = choose|i: int| 0 <= i < w.len() && w[i] == JsonV::Str(id);
            assert(v[i] == JsonV::Str(id));
        }
        if v.contains(JsonV::Str(id)) {
            let i = choose|i: int| 0 <= i < v.len() && v[i] == JsonV::Str(id);
            if i < w.len() {
                assert(w[i] == JsonV::Str(id));
            }
        }
        if let JsonV::Str(s) = v.last() {
            let t = strings_in(w);
            assert(t.push(s).last() == s);
            if t.contains(id) {
                let i = choose|i: int| 0 <= i < t.len() && t[i] == id;
                assert(t.push(s)[i] == id);
            }
            if t.push(s).contains(id) {
                let i = choose|i: int| 0 <= i < t.push(s).len() && t.push(s)[i] == id;
                if i < t.len() {
                    assert(t[i] == id);
                }
            }
            if id == s {
                assert(t.push(s)[t.len() as int] == id);
                assert(v[v.len() - 1] == JsonV::Str(id));
            }
        }
    }
}

} // verus!
