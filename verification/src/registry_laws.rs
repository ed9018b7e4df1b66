//! What a save, a removal and a choice do to the registry of connections: which
//! fields are stored, which are kept, and what cannot happen.

use crate::connection_config::base_url_of;
use crate::connections::{
    conn_with_id, edited_entry, edited_headers, inherit, last_used_set, launch_mode_set,
    merged_input, name_clash, primary_set, reason_of, removal_of, save_of, saved_entry, typed_entry,
    url_clash, url_key_of, with_token,
};
use crate::json::{field, lemma_lookup_put, lookup, str_field, str_field_or_empty, Fields, JsonV};
use crate::registry::{
    auth_mode_of, has_id, label_key_of, nonblank, ssh_fields_of, storable_header, ConnV, RegistryV,
};
use crate::registry_load::{lemma_kinds_differ, port_of, ssh_of};
use crate::registry_store::{opt_int_value, opt_obj_value, opt_str_value};
use crate::text::trimmed;
use vstd::prelude::*;

verus! {

// ---------------------------------------------------------------------------
// What an edit comes to, field by field
// ---------------------------------------------------------------------------

proof fn lemma_entry_keys()
    ensures
        "url"@.len() == 3 && "url"@[0] == 'u',
        "org"@.len() == 3 && "org"@[0] == 'o',
        "host"@.len() == 4 && "host"@[0] == 'h',
        "user"@.len() == 4 && "user"@[0] == 'u',
        "port"@.len() == 4 && "port"@[0] == 'p',
        "kind"@.len() == 4 && "kind"@[0] == 'k',
        "token"@.len() == 5 && "token"@[0] == 't',
        "label"@.len() == 5 && "label"@[0] == 'l',
        "keyPath"@.len() == 7 && "keyPath"@[0] == 'k',
        "headers"@.len() == 7 && "headers"@[0] == 'h',
        "authMode"@.len() == 8,
        "remoteProfile"@.len() == 13,
        "remoteHermesPath"@.len() == 16,
        "id"@.len() == 2,
{
    reveal_strlit("url");
    reveal_strlit("org");
    reveal_strlit("host");
    reveal_strlit("user");
    reveal_strlit("port");
    reveal_strlit("kind");
    reveal_strlit("token");
    reveal_strlit("label");
    reveal_strlit("keyPath");
    reveal_strlit("headers");
    reveal_strlit("authMode");
    reveal_strlit("remoteProfile");
    reveal_strlit("remoteHermesPath");
    reveal_strlit("id");
}

proof fn lemma_inherit(o: Fields, k: Seq<char>, stored: Option<JsonV>, q: Seq<char>)
    ensures
        lookup(inherit(o, k, stored), q) == if q == k && lookup(o, k) is None {
            stored
        } else {
            lookup(o, q)
        },
{
    if let Some(j) = stored {
        lemma_lookup_put(o, k, j, q);
    }
}

/// The edit with its token settled and what it does not carry filled in.
spec fn settled_input(payload: JsonV, existing: Option<ConnV>) -> JsonV {
    merged_input(with_token(payload, existing), existing)
}

/// The value that a field of an edit has, where the stored entry has `stored`.
spec fn own_or(payload: JsonV, k: Seq<char>, stored: Option<JsonV>) -> Option<JsonV> {
    match field(payload, k) {
        Some(v) => Some(v),
        None => stored,
    }
}

proof fn lemma_token_settled(payload: JsonV, existing: Option<ConnV>, q: Seq<char>)
    requires
        payload is Obj,
    ensures
        with_token(payload, existing) is Obj,
        q != "token"@ ==> field(with_token(payload, existing), q) == field(payload, q),
        field(with_token(payload, existing), "token"@) == match str_field(payload, "token"@) {
            Some(t) => Some(JsonV::Str(trimmed(t))),
            None => match existing {
                Some(e) => match e.token {
                    Some(t) => Some(t),
                    None => field(payload, "token"@),
                },
                None => field(payload, "token"@),
            },
        },
{
    let o = payload->Obj_0;
    if let Some(t) = str_field(payload, "token"@) {
        lemma_lookup_put(o, "token"@, JsonV::Str(trimmed(t)), q);
        lemma_lookup_put(o, "token"@, JsonV::Str(trimmed(t)), "token"@);
    } else if let Some(e) = existing {
        if let Some(t) = e.token {
            lemma_lookup_put(o, "token"@, t, q);
            lemma_lookup_put(o, "token"@, t, "token"@);
        }
    }
}

proof fn lemma_merged_field(p: JsonV, e: ConnV, q: Seq<char>)
    requires
        p is Obj,
        e.kind == str_field_or_empty(p, "kind"@),
    ensures
        ({
            let m = merged_input(p, Some(e));
            let typed_host = trimmed(str_field_or_empty(p, "host"@)).len() > 0;
            &&& m is Obj
            &&& q == "url"@ ==> field(m, q) == own_or(p, q, opt_str_value(e.url))
            &&& q == "authMode"@ ==> field(m, q) == own_or(p, q, opt_str_value(e.auth_mode))
            &&& q == "org"@ ==> field(m, q) == own_or(p, q, opt_str_value(e.org))
            &&& q == "host"@ ==> field(m, q) == own_or(p, q, opt_str_value(e.host))
            &&& q == "keyPath"@ ==> field(m, q) == own_or(p, q, opt_str_value(e.key_path))
            &&& q == "remoteHermesPath"@ ==> field(m, q) == own_or(
                p,
                q,
                opt_str_value(e.remote_hermes_path),
            )
            &&& q == "remoteProfile"@ ==> field(m, q) == own_or(
                p,
                q,
                opt_str_value(e.remote_profile),
            )
            &&& q == "headers"@ ==> field(m, q) == own_or(p, q, opt_obj_value(e.headers))
            &&& q == "user"@ ==> field(m, q) == if typed_host {
                field(p, q)
            } else {
                own_or(p, q, opt_str_value(e.user))
            }
            &&& q == "port"@ ==> field(m, q) == if typed_host {
                field(p, q)
            } else {
                own_or(p, q, opt_int_value(e.port))
            }
            &&& q == "id"@ || q == "kind"@ || q == "label"@ || q == "token"@ ==> field(m, q)
                == field(p, q)
        }),
{
    lemma_entry_keys();
    let o = p->Obj_0;
    let o1 = inherit(o, "url"@, opt_str_value(e.url));
    let o2 = inherit(o1, "authMode"@, opt_str_value(e.auth_mode));
    let o3 = inherit(o2, "org"@, opt_str_value(e.org));
    let o4 = inherit(o3, "host"@, opt_str_value(e.host));
    let o5 = inherit(o4, "keyPath"@, opt_str_value(e.key_path));
    let o6 = inherit(o5, "remoteHermesPath"@, opt_str_value(e.remote_hermes_path));
    let o7 = inherit(o6, "remoteProfile"@, opt_str_value(e.remote_profile));
    let o8 = inherit(o7, "headers"@, opt_obj_value(e.headers));
    let o9 = inherit(o8, "user"@, opt_str_value(e.user));
    lemma_inherit(o, "url"@, opt_str_value(e.url), q);
    lemma_inherit(o1, "authMode"@, opt_str_value(e.auth_mode), q);
    lemma_inherit(o2, "org"@, opt_str_value(e.org), q);
    lemma_inherit(o3, "host"@, opt_str_value(e.host), q);
    lemma_inherit(o4, "keyPath"@, opt_str_value(e.key_path), q);
    lemma_inherit(o5, "remoteHermesPath"@, opt_str_value(e.remote_hermes_path), q);
    lemma_inherit(o6, "remoteProfile"@, opt_str_value(e.remote_profile), q);
    lemma_inherit(o7, "headers"@, opt_obj_value(e.headers), q);
    lemma_inherit(o8, "user"@, opt_str_value(e.user), q);
    lemma_inherit(o9, "port"@, opt_int_value(e.port), q);
}

proof fn lemma_settled(payload: JsonV, existing: Option<ConnV>)
    requires
        payload is Obj,
    ensures
        ({
            let m = settled_input(payload, existing);
            &&& m is Obj
            &&& field(m, "id"@) == field(payload, "id"@)
            &&& field(m, "kind"@) == field(payload, "kind"@)
            &&& field(m, "label"@) == field(payload, "label"@)
            &&& str_field(payload, "token"@) matches Some(t) ==> field(m, "token"@) == Some(
                JsonV::Str(trimmed(t)),
            )
            &&& str_field(payload, "token"@) is None && existing is Some && existing->0.token
                is Some ==> field(m, "token"@) == existing->0.token
        }),
{
    lemma_entry_keys();
    lemma_token_settled(payload, existing, "id"@);
    lemma_token_settled(payload, existing, "kind"@);
    lemma_token_settled(payload, existing, "label"@);
    let p = with_token(payload, existing);
    if let Some(e) = existing {
        if e.kind == str_field_or_empty(p, "kind"@) {
            lemma_merged_field(p, e, "id"@);
            lemma_merged_field(p, e, "kind"@);
            lemma_merged_field(p, e, "label"@);
            lemma_merged_field(p, e, "token"@);
        }
    }
}

// ---------------------------------------------------------------------------
// Saving
// ---------------------------------------------------------------------------

/// A token that is typed is the one that is stored, without the white space
/// around it: whether or not there was an entry with that id, and whatever token
/// it had. What is stored is found under the id of the entry.
pub proof fn law_a_typed_token_is_stored(payload: JsonV, r: RegistryV, t: Seq<char>, c: ConnV)
    requires
        saved_entry(payload, r) == Ok::<ConnV, Seq<char>>(c),
        str_field(payload, "token"@) == Some(t),
        trimmed(t).len() > 0,
        c.kind == "remote"@,
        c.auth_mode == Some("token"@),
    ensures
        c.token == Some(JsonV::Str(trimmed(t))),
        save_of(payload, r) matches Ok(o) && o.0 == c && conn_with_id(o.1.connections, c.id)
            == Some(c),
        edited_entry(payload, r) matches Some(e) ==> (e.token != Some(JsonV::Str(trimmed(t)))
            ==> save_of(payload, r)->Ok_0.2),
{
    lemma_settled(payload, edited_entry(payload, r));
    lemma_typed(settled_input(payload, edited_entry(payload, r)), r, c);
    crate::connections::law_save_touches_one_entry(r.connections, c);
}

/// A token that is not typed is the stored one, as it was.
pub proof fn law_an_untyped_token_is_kept(payload: JsonV, r: RegistryV, e: ConnV, c: ConnV)
    requires
        saved_entry(payload, r) == Ok::<ConnV, Seq<char>>(c),
        edited_entry(payload, r) == Some(e),
        str_field(payload, "token"@) is None,
        e.token is Some,
        c.kind == "remote"@,
        c.auth_mode == Some("token"@),
    ensures
        c.token == e.token,
{
    lemma_settled(payload, Some(e));
    lemma_typed(settled_input(payload, Some(e)), r, c);
}

/// Only a remote with a session token has one: an entry that goes over to another
/// way of signing in, or to another kind, forgets it; and a remote without one is
/// refused.
pub proof fn law_only_token_remotes_have_a_token(payload: JsonV, r: RegistryV, c: ConnV)
    requires
        saved_entry(payload, r) == Ok::<ConnV, Seq<char>>(c),
    ensures
        c.kind != "remote"@ || c.auth_mode == Some("oauth"@) ==> c.token is None,
        c.kind == "remote"@ && c.auth_mode != Some("oauth"@) ==> (c.token
            matches Some(JsonV::Str(t)) && trimmed(t).len() > 0),
{
    lemma_kinds_differ();
    lemma_oauth_is_no_token();
    lemma_settled(payload, edited_entry(payload, r));
    lemma_typed(settled_input(payload, edited_entry(payload, r)), r, c);
}

proof fn lemma_oauth_is_no_token()
    ensures
        "oauth"@ != "token"@,
{
    reveal_strlit("oauth");
    reveal_strlit("token");
    assert("oauth"@[0] == 'o' && "token"@[0] == 't');
}

/// What comes of an entry that was typed in and not refused.
proof fn lemma_typed(m: JsonV, r: RegistryV, c: ConnV)
    requires
        typed_entry(m, r) == Ok::<ConnV, Seq<char>>(c),
    ensures
        c.label == trimmed(str_field_or_empty(m, "label"@)),
        0 < c.label.len() <= 64,
        name_clash(r.connections, c.label, str_field_or_empty(m, "id"@)) is None,
        c.kind == str_field_or_empty(m, "kind"@),
        c.kind == "local"@ ==> c.id == "local"@ && c.url is None && c.token is None
            && c.auth_mode is None,
        c.kind != "local"@ && str_field_or_empty(m, "id"@).len() > 0 ==> c.id
            == str_field_or_empty(m, "id"@),
        c.kind == "remote"@ || c.kind == "cloud"@ ==> {
            &&& c.url == Some(base_url_of(str_field_or_empty(m, "url"@)))
            &&& c.auth_mode == Some(auth_mode_of(str_field(m, "authMode"@)))
            &&& url_clash(r.connections, c.url->0, c.id) is None
            &&& c.token == if c.kind == "remote"@ && c.auth_mode == Some("token"@) {
                field(m, "token"@)
            } else {
                None
            }
            &&& c.org == if c.kind == "cloud"@ {
                nonblank(str_field_or_empty(m, "org"@))
            } else {
                None
            }
        },
        c.kind == "ssh"@ ==> (ssh_of(m) matches Some(s) && {
            &&& c.host == Some(s.host) && c.user == s.user && c.port == s.port
            &&& c.key_path == s.key_path && c.remote_hermes_path == s.remote_hermes_path
            &&& c.remote_profile == s.remote_profile
            &&& c.token is None && c.url is None && c.auth_mode is None
        }),
        c.kind == "local"@ || c.kind == "remote"@ || c.kind == "cloud"@ || c.kind == "ssh"@,
{
    lemma_kinds_differ();
}

/// A save stores the name that was typed, trimmed, of one to sixty-four
/// characters, and the kind that was asked for, under the id that was given; the
/// local entry keeps its own.
pub proof fn law_a_save_stores_the_name_and_the_kind(payload: JsonV, r: RegistryV, c: ConnV)
    requires
        saved_entry(payload, r) == Ok::<ConnV, Seq<char>>(c),
    ensures
        c.label == trimmed(str_field_or_empty(payload, "label"@)),
        0 < c.label.len() <= 64,
        Some(c.kind) == str_field(payload, "kind"@),
        c.kind == "local"@ ==> c.id == "local"@,
        c.kind != "local"@ && str_field_or_empty(payload, "id"@).len() > 0 ==> c.id
            == str_field_or_empty(payload, "id"@),
{
    lemma_kinds_differ();
    lemma_settled(payload, edited_entry(payload, r));
    lemma_typed(settled_input(payload, edited_entry(payload, r)), r, c);
    reveal_strlit("local");
    reveal_strlit("remote");
    reveal_strlit("cloud");
    reveal_strlit("ssh");
}

/// A gateway that is edited has the address, the way of signing in and the
/// organisation that were typed; what was not typed stays as it was.
pub proof fn law_an_edited_gateway_keeps_what_is_not_typed(
    payload: JsonV,
    r: RegistryV,
    e: ConnV,
    c: ConnV,
)
    requires
        saved_entry(payload, r) == Ok::<ConnV, Seq<char>>(c),
        edited_entry(payload, r) == Some(e),
        c.kind == "remote"@ || c.kind == "cloud"@,
        e.kind == c.kind,
    ensures
        str_field(payload, "url"@) matches Some(u) ==> c.url == Some(base_url_of(u)),
        field(payload, "url"@) is None && e.url is Some ==> c.url == Some(base_url_of(e.url->0)),
        str_field(payload, "authMode"@) == Some("oauth"@) ==> c.auth_mode == Some("oauth"@),
        str_field(payload, "authMode"@) == Some("token"@) ==> c.auth_mode == Some("token"@),
        field(payload, "authMode"@) is None && (e.auth_mode == Some("oauth"@) || e.auth_mode
            == Some("token"@)) ==> c.auth_mode == e.auth_mode,
        c.kind == "cloud"@ ==> {
            &&& str_field(payload, "org"@) matches Some(o) ==> (trimmed(o) == o && o.len() > 0
                ==> c.org == Some(o))
            &&& field(payload, "org"@) is None && e.org is Some && trimmed(e.org->0) == e.org->0
                && e.org->0.len() > 0 ==> c.org == e.org
        },
        c.host is None || c.kind == "ssh"@,
{
    lemma_kinds_differ();
    lemma_oauth_is_no_token();
    lemma_entry_keys();
    let existing = Some(e);
    lemma_settled(payload, existing);
    let m = settled_input(payload, existing);
    lemma_typed(m, r, c);
    lemma_token_settled(payload, existing, "url"@);
    lemma_token_settled(payload, existing, "authMode"@);
    lemma_token_settled(payload, existing, "org"@);
    lemma_token_settled(payload, existing, "kind"@);
    let p = with_token(payload, existing);
    lemma_merged_field(p, e, "url"@);
    lemma_merged_field(p, e, "authMode"@);
    lemma_merged_field(p, e, "org"@);
}

/// A gateway that is new has the address, the way of signing in and the
/// organisation that were typed; it signs in by a session token unless told
/// otherwise.
pub proof fn law_a_new_gateway_is_what_is_typed(payload: JsonV, r: RegistryV, c: ConnV)
    requires
        saved_entry(payload, r) == Ok::<ConnV, Seq<char>>(c),
        edited_entry(payload, r) is None,
        c.kind == "remote"@ || c.kind == "cloud"@,
    ensures
        c.url == Some(base_url_of(str_field_or_empty(payload, "url"@))),
        c.auth_mode == if str_field(payload, "authMode"@) == Some("oauth"@) {
            Some("oauth"@)
        } else {
            Some("token"@)
        },
        c.kind == "cloud"@ ==> (str_field(payload, "org"@) matches Some(o) ==> (trimmed(o) == o
            && o.len() > 0 ==> c.org == Some(o))),
        c.host is None && c.user is None && c.port is None && c.key_path is None,
{
    lemma_kinds_differ();
    lemma_entry_keys();
    lemma_settled(payload, None);
    lemma_typed(settled_input(payload, None), r, c);
    lemma_token_settled(payload, None, "url"@);
    lemma_token_settled(payload, None, "authMode"@);
    lemma_token_settled(payload, None, "org"@);
}

/// An SSH connection that is edited goes where its fields say: those that were
/// typed, else those that were stored. A host that was typed decides on the user
/// and the port, and the stored ones are not kept then.
pub proof fn law_an_edited_ssh_connection_goes_where_it_says(
    payload: JsonV,
    r: RegistryV,
    e: ConnV,
    c: ConnV,
)
    requires
        saved_entry(payload, r) == Ok::<ConnV, Seq<char>>(c),
        edited_entry(payload, r) == Some(e),
        c.kind == "ssh"@,
        e.kind == "ssh"@,
    ensures
        ({
            let typed_host = trimmed(str_field_or_empty(payload, "host"@)).len() > 0;
            let text = |k: Seq<char>, stored: Option<Seq<char>>|
                if field(payload, k) is Some {
                    str_field(payload, k)
                } else {
                    stored
                };
            ssh_fields_of(
                text("host"@, e.host),
                if typed_host {
                    str_field(payload, "user"@)
                } else {
                    text("user"@, e.user)
                },
                if !typed_host && field(payload, "port"@) is None {
                    e.port
                } else {
                    port_of(payload)
                },
                text("keyPath"@, e.key_path),
                text("remoteHermesPath"@, e.remote_hermes_path),
                text("remoteProfile"@, e.remote_profile),
            ) matches Some(s) && {
                &&& c.host == Some(s.host) && c.user == s.user && c.port == s.port
                &&& c.key_path == s.key_path && c.remote_hermes_path == s.remote_hermes_path
                &&& c.remote_profile == s.remote_profile
            }
        }),
{
    lemma_kinds_differ();
    lemma_entry_keys();
    let existing = Some(e);
    lemma_settled(payload, existing);
    let m = settled_input(payload, existing);
    lemma_typed(m, r, c);
    lemma_token_settled(payload, existing, "host"@);
    lemma_token_settled(payload, existing, "user"@);
    lemma_token_settled(payload, existing, "port"@);
    lemma_token_settled(payload, existing, "keyPath"@);
    lemma_token_settled(payload, existing, "remoteHermesPath"@);
    lemma_token_settled(payload, existing, "remoteProfile"@);
    lemma_token_settled(payload, existing, "kind"@);
    let p = with_token(payload, existing);
    lemma_merged_field(p, e, "host"@);
    lemma_merged_field(p, e, "user"@);
    lemma_merged_field(p, e, "port"@);
    lemma_merged_field(p, e, "keyPath"@);
    lemma_merged_field(p, e, "remoteHermesPath"@);
    lemma_merged_field(p, e, "remoteProfile"@);
}

proof fn lemma_first_where_none(c: Seq<ConnV>, p: spec_fn(ConnV) -> bool)
    ensures
        crate::connections::first_where(c, p) is None <==> forall|i: int|
            0 <= i < c.len() ==> !p(#[trigger] c[i]),
    decreases c.len(),
{
    if c.len() > 0 {
        lemma_first_where_none(c.drop_first(), p);
        if crate::connections::first_where(c, p) is None {
            assert forall|i: int| 0 <= i < c.len() implies !p(#[trigger] c[i]) by {
                if i > 0 {
                    assert(c[i] == c.drop_first()[i - 1]);
                }
            }
        } else if forall|i: int| 0 <= i < c.len() ==> !p(#[trigger] c[i]) {
            assert(!p(c[0]));
            assert forall|i: int| 0 <= i < c.drop_first().len() implies !p(
                #[trigger] c.drop_first()[i],
            ) by {
                assert(c.drop_first()[i] == c[i + 1]);
            }
        }
    }
}

/// No two connections share a name, and no two gateways an address: a save that
/// is not refused leaves no other entry with the same.
pub proof fn law_names_and_addresses_stay_unique(payload: JsonV, r: RegistryV, c: ConnV, i: int)
    requires
        saved_entry(payload, r) == Ok::<ConnV, Seq<char>>(c),
        0 <= i < r.connections.len(),
    ensures
        r.connections[i].id != str_field_or_empty(payload, "id"@) ==> label_key_of(
            r.connections[i].label,
        ) != label_key_of(c.label),
        (c.kind == "remote"@ || c.kind == "cloud"@) && (r.connections[i].kind == "remote"@
            || r.connections[i].kind == "cloud"@) && r.connections[i].id != c.id
            && r.connections[i].url is Some ==> url_key_of(r.connections[i].url->0) != url_key_of(
            c.url->0,
        ),
{
    lemma_kinds_differ();
    lemma_settled(payload, edited_entry(payload, r));
    lemma_typed(settled_input(payload, edited_entry(payload, r)), r, c);
    let id = str_field_or_empty(payload, "id"@);
    lemma_first_where_none(
        r.connections,
        |x: ConnV| label_key_of(x.label) == label_key_of(c.label) && x.id != id,
    );
    if c.kind == "remote"@ || c.kind == "cloud"@ {
        lemma_first_where_none(
            r.connections,
            |x: ConnV|
                (x.kind == "remote"@ || x.kind == "cloud"@) && x.id != c.id && x.url is Some
                    && url_key_of(x.url->0) == url_key_of(c.url->0),
        );
    }
}

/// What is refused: anything but an object, an entry without a name or with one
/// that is too long or taken, and a kind that is not known.
pub proof fn law_unusable_saves_are_refused(payload: JsonV, r: RegistryV, i: int)
    ensures
        !(payload is Obj) ==> saved_entry(payload, r) is Err,
        trimmed(str_field_or_empty(payload, "label"@)).len() == 0 ==> saved_entry(payload, r)
            is Err,
        trimmed(str_field_or_empty(payload, "label"@)).len() > 64 ==> saved_entry(payload, r)
            is Err,
        0 <= i < r.connections.len() && r.connections[i].id != str_field_or_empty(
            payload,
            "id"@,
        ) && label_key_of(r.connections[i].label) == label_key_of(
            str_field_or_empty(payload, "label"@),
        ) ==> saved_entry(payload, r) is Err,
        ({
            let k = str_field_or_empty(payload, "kind"@);
            k != "local"@ && k != "remote"@ && k != "cloud"@ && k != "ssh"@
        }) ==> saved_entry(payload, r) is Err,
        str_field(payload, "id"@) == Some("local"@) && str_field(payload, "kind"@) != Some(
            "local"@,
        ) ==> saved_entry(payload, r) is Err,
{
    reveal_strlit("local");
    crate::text::lemma_trim_idempotent(
        str_field_or_empty(payload, "label"@),
        crate::text::Class::White,
    );
    if let Ok(c) = saved_entry(payload, r) {
        law_a_save_stores_the_name_and_the_kind(payload, r, c);
        lemma_settled(payload, edited_entry(payload, r));
        lemma_typed(settled_input(payload, edited_entry(payload, r)), r, c);
        if 0 <= i < r.connections.len() {
            law_names_and_addresses_stay_unique(payload, r, c, i);
        }
    }
    if !(payload is Obj) {
        assert(saved_entry(payload, r) is Err);
    }
}

/// What is dialled has changed exactly when something other than the name and the
/// id has; a new entry has changed nothing. Only then is an update announced.
pub proof fn law_an_edit_dials_anew_when_something_changed(
    payload: JsonV,
    r: RegistryV,
    e: ConnV,
    c: ConnV,
)
    requires
        saved_entry(payload, r) == Ok::<ConnV, Seq<char>>(c),
    ensures
        edited_entry(payload, r) == Some(e) ==> (save_of(payload, r)->Ok_0.2 <==> !{
            &&& c.kind == e.kind && c.url == e.url && c.auth_mode == e.auth_mode
            &&& c.token == e.token && c.headers == e.headers && c.org == e.org
            &&& c.host == e.host && c.user == e.user && c.port == e.port
            &&& c.key_path == e.key_path && c.remote_hermes_path == e.remote_hermes_path
            &&& c.remote_profile == e.remote_profile
        }),
        edited_entry(payload, r) is None ==> !save_of(payload, r)->Ok_0.2,
        reason_of(true) == "updated"@,
        reason_of(false) == "saved"@,
{
    if c.kind == e.kind && c.url == e.url && c.auth_mode == e.auth_mode && c.token == e.token
        && c.headers == e.headers && c.org == e.org && c.host == e.host && c.user == e.user
        && c.port == e.port && c.key_path == e.key_path && c.remote_hermes_path
        == e.remote_hermes_path && c.remote_profile == e.remote_profile {
        assert((ConnV { id: e.id, label: e.label, ..c }) =~= e);
    }
}

/// A save leaves everything but the list of entries, and of those all but one, as
/// they were.
pub proof fn law_a_save_leaves_the_rest(payload: JsonV, r: RegistryV)
    ensures
        save_of(payload, r) matches Ok(o) ==> {
            &&& o.1.primary == r.primary && o.1.last_used == r.last_used
            &&& o.1.launch_mode == r.launch_mode && o.1.version == r.version
            &&& o.1.quarantined == r.quarantined
            &&& conn_with_id(o.1.connections, o.0.id) == Some(o.0)
            &&& forall|id: Seq<char>|
                id != o.0.id ==> #[trigger] conn_with_id(o.1.connections, id) == conn_with_id(
                    r.connections,
                    id,
                )
        },
{
    if let Ok(o) = save_of(payload, r) {
        crate::connections::law_save_touches_one_entry(r.connections, o.0);
    }
}

/// A header that is typed replaces the stored one, one that is given as null keeps
/// it, and one that is blank goes; other headers do not matter to it.
pub proof fn law_headers_are_replaced_kept_or_dropped(
    o: Fields,
    name: Seq<char>,
    value: Seq<char>,
    stored: Fields,
    other: Seq<char>,
)
    requires
        trimmed(name) == name,
        storable_header(name),
    ensures
        trimmed(value).len() > 0 ==> lookup(
            edited_headers(o.push((name, JsonV::Str(value))), Some(stored)),
            name,
        ) == Some(JsonV::Str(trimmed(value))),
        lookup(stored, name) is Some ==> lookup(
            edited_headers(o.push((name, JsonV::Null)), Some(stored)),
            name,
        ) == lookup(stored, name),
        trimmed(value).len() == 0 ==> edited_headers(
            o.push((name, JsonV::Str(value))),
            Some(stored),
        ) == edited_headers(o, Some(stored)),
        other != name ==> lookup(
            edited_headers(o.push((name, JsonV::Str(value))), Some(stored)),
            other,
        ) == lookup(edited_headers(o, Some(stored)), other),
{
    let rest = edited_headers(o, Some(stored));
    assert(o.push((name, JsonV::Str(value))).drop_last() =~= o);
    assert(o.push((name, JsonV::Null)).drop_last() =~= o);
    let v = JsonV::Str(trimmed(value));
    lemma_lookup_put(rest, name, v, name);
    lemma_lookup_put(rest, name, v, other);
    if let Some(s) = lookup(stored, name) {
        lemma_lookup_put(rest, name, s, name);
    }
}

// ---------------------------------------------------------------------------
// Removing and choosing
// ---------------------------------------------------------------------------

/// A removal is done exactly when the id is there and is not the local one. Then
/// the entry is gone, every other is still there, and what pointed at it points
/// at one that is: the local connection, or the primary one.
pub proof fn law_a_removal_takes_the_entry_named(r: RegistryV, id: Seq<char>)
    requires
        trimmed(id) == id,
    ensures
        removal_of(r, id) is Ok <==> (conn_with_id(r.connections, id) matches Some(c) && c.kind
            != "local"@),
        removal_of(r, id) matches Ok(n) ==> {
            &&& !has_id(n.connections, id)
            &&& forall|i: int|
                0 <= i < r.connections.len() && (#[trigger] r.connections[i]).id != id
                    ==> n.connections.contains(r.connections[i])
            &&& r.primary != id ==> n.primary == r.primary
            &&& r.primary == id ==> n.primary == "local"@
            &&& r.last_used != id ==> n.last_used == r.last_used
            &&& r.last_used == id ==> n.last_used == n.primary
            &&& n.launch_mode == r.launch_mode && n.quarantined == r.quarantined && n.version
                == r.version
        },
{
    crate::connections::law_remove_takes_exactly_one_id(r.connections, id);
}

/// A choice is of a connection that there is, and changes nothing else.
pub proof fn law_a_choice_is_of_a_connection_that_there_is(r: RegistryV, id: Seq<char>)
    requires
        trimmed(id) == id,
    ensures
        primary_set(r, id) is Ok <==> has_id(r.connections, id),
        last_used_set(r, id) is Ok <==> has_id(r.connections, id),
        primary_set(r, id) matches Ok(n) ==> n.primary == id && n.connections == r.connections
            && n.last_used == r.last_used && n.launch_mode == r.launch_mode && n.quarantined
            == r.quarantined && n.version == r.version,
        last_used_set(r, id) matches Ok(n) ==> n.last_used == id && n.connections
            == r.connections && n.primary == r.primary && n.launch_mode == r.launch_mode
            && n.quarantined == r.quarantined && n.version == r.version,
{
}

/// A launch opens on the primary connection or on the last one, as is chosen;
/// there is no third way.
pub proof fn law_a_launch_opens_as_is_chosen(r: RegistryV, mode: Seq<char>)
    ensures
        launch_mode_set(r, mode) is Ok <==> mode == "primary"@ || mode == "last-used"@,
        launch_mode_set(r, mode) matches Ok(n) ==> n.launch_mode == mode && n.connections
            == r.connections && n.primary == r.primary && n.last_used == r.last_used
            && n.quarantined == r.quarantined && n.version == r.version,
{
}

} // verus!
