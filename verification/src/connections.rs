//! Editing the registry: saving, removing and choosing connections.

use crate::connection_config::{base_url_of, normalize_remote_base_url};
use crate::json::{
    dup_fields, field, fields, find_field, lookup, no_fields, put, same_fields, set_field,
    str_field, str_field_or_empty, Fields, Json, JsonV,
};
use crate::outside::{lowercase, parse_url, to_lowercase, url_of};
use crate::registry::{
    auth_mode_of, bare_conn, connection_id_for_label, conns, find_position, has_id, id_for_label,
    ids_of, is_storable_header, label_key, label_key_of, lemma_position, list_ids, local_conn,
    local_entry, nonblank, norm_auth_mode, opt_fields, opt_json, position_of, storable_header,
    trim_nonblank, usable_header, usable_header_value, ConnV, ConnectionRegistry,
    RegistryConnection, RegistryV, LABEL_MAX,
};
use crate::registry_load::{
    distinct, lemma_kinds_differ, put_ssh, read_ssh, some_if_any, sound, ssh_of, usable_entry,
    with_ssh,
};
use crate::registry_store::{opt_int_value, opt_obj_value, opt_str_value, put_opt};
use crate::text::{
    chars_of, dec_int, decimal_int, opt_text, or_empty, same, same_opt, text_or_empty, text_result,
    trim, trim_end_char, trim_end_of, trimmed, Class,
};
use vstd::prelude::*;

verus! {

// ---------------------------------------------------------------------------
// Finding entries
// ---------------------------------------------------------------------------

/// The first entry that satisfies the predicate.
pub open spec fn first_where(c: Seq<ConnV>, p: spec_fn(ConnV) -> bool) -> Option<ConnV>
    decreases c.len(),
{
    if c.len() == 0 {
        None
    } else if p(c[0]) {
        Some(c[0])
    } else {
        first_where(c.drop_first(), p)
    }
}

pub open spec fn conn_with_id(c: Seq<ConnV>, id: Seq<char>) -> Option<ConnV> {
    match position_of(c, id) {
        Some(i) => Some(c[i]),
        None => None,
    }
}

pub open spec fn no_such_connection(id: Seq<char>) -> Seq<char> {
    "No connection with id \""@ + id + "\"."@
}

/// The entry with an id, or the words of the refusal.
pub fn find_entry<'a>(registry: &'a ConnectionRegistry, id: &str) -> (r: Result<
    &'a RegistryConnection,
    String,
>)
    ensures
        match r {
            Ok(c) => conn_with_id(registry@.connections, id@) == Some(c@),
            Err(e) => conn_with_id(registry@.connections, id@) is None && e@
                == no_such_connection(id@),
        },
{
    match find_position(&registry.connections, id) {
        Some(i) => Ok(&registry.connections[i]),
        None => {
            let mut e = "No connection with id \"".to_string();
            e.append(id);
            e.append("\".");
            Err(e)
        },
    }
}

// ---------------------------------------------------------------------------
// Checking what was typed
// ---------------------------------------------------------------------------

/// The base address of a typed one, or the words of the refusal.
pub open spec fn strict_base_url(raw: Seq<char>) -> Result<Seq<char>, Seq<char>> {
    let base = base_url_of(raw);
    if base.len() == 0 {
        Err("Remote connections need a gateway URL."@)
    } else if url_of(base) is None {
        Err("\""@ + raw + "\" is not a valid gateway URL."@)
    } else {
        Ok(base)
    }
}

pub fn normalize_remote_base_url_strict(raw: &str) -> (r: Result<String, String>)
    ensures
        text_result(r) == strict_base_url(raw@),
{
    let base = normalize_remote_base_url(raw);
    if base.as_str().is_empty() {
        return Err("Remote connections need a gateway URL.".to_string());
    }
    if parse_url(&base).is_none() {
        let mut e = "\"".to_string();
        e.append(raw);
        e.append("\" is not a valid gateway URL.");
        return Err(e);
    }
    Ok(base)
}

/// What two addresses are compared by.
pub open spec fn url_key_of(url: Seq<char>) -> Seq<char> {
    lowercase(trim_end_of(trimmed(url), Class::One('/')))
}

pub fn url_key(url: &str) -> (r: String)
    ensures
        r@ == url_key_of(url@),
{
    to_lowercase(&trim_end_char(&trim(url), '/'))
}

/// What two SSH targets are compared by: user, host, port and profile.
pub open spec fn ssh_key_of(
    user: Option<Seq<char>>,
    host: Option<Seq<char>>,
    port: Option<i64>,
    profile: Option<Seq<char>>,
) -> Seq<char> {
    lowercase(or_empty(user)) + "@"@ + lowercase(or_empty(host)) + ":"@ + dec_int(
        match port {
            Some(p) => p as int,
            None => 22,
        },
    ) + "::"@ + trimmed(or_empty(profile))
}

fn ssh_key(
    user: &Option<String>,
    host: &Option<String>,
    port: Option<i64>,
    profile: &Option<String>,
) -> (r: String)
    ensures
        r@ == ssh_key_of(opt_text(*user), opt_text(*host), port, opt_text(*profile)),
{
    let mut out = to_lowercase(&text_or_empty(user));
    out.append("@");
    out.append(&to_lowercase(&text_or_empty(host)));
    out.append(":");
    let p: i64 = match port {
        Some(p) => p,
        None => 22,
    };
    out.append(&decimal_int(p as i128));
    out.append("::");
    out.append(&trim(&text_or_empty(profile)));
    out
}

/// An entry of the same name under another id.
pub open spec fn name_clash(c: Seq<ConnV>, label: Seq<char>, id: Seq<char>) -> Option<ConnV> {
    first_where(c, |x: ConnV| label_key_of(x.label) == label_key_of(label) && x.id != id)
}

/// An SSH entry with the same target under another id.
pub open spec fn ssh_clash(c: Seq<ConnV>, key: Seq<char>, id: Seq<char>) -> Option<ConnV> {
    first_where(
        c,
        |x: ConnV|
            x.kind == "ssh"@ && x.id != id && ssh_key_of(x.user, x.host, x.port, x.remote_profile)
                == key,
    )
}

/// A gateway entry with the same address under another id.
pub open spec fn url_clash(c: Seq<ConnV>, url: Seq<char>, id: Seq<char>) -> Option<ConnV> {
    first_where(
        c,
        |x: ConnV|
            (x.kind == "remote"@ || x.kind == "cloud"@) && x.id != id && x.url is Some
                && url_key_of(x.url->0) == url_key_of(url),
    )
}

/// The headers of a saved entry: a null keeps the stored value, a usable text
/// replaces it, and anything else drops it.
pub open spec fn edited_headers(o: Fields, stored: Option<Fields>) -> Fields
    decreases o.len(),
{
    if o.len() == 0 {
        no_fields()
    } else {
        let rest = edited_headers(o.drop_last(), stored);
        let name = trimmed(o.last().0);
        if !storable_header(name) {
            rest
        } else if o.last().1 is Null {
            match stored {
                Some(s) => put_opt(rest, name, lookup(s, name)),
                None => rest,
            }
        } else {
            put_opt(rest, name, opt_str_value(usable_header(o.last().1)))
        }
    }
}

/// The headers that the stored entry has.
pub open spec fn stored_headers_of(
    c: Seq<ConnV>,
    id: Seq<char>,
    input_id: Seq<char>,
) -> Option<Fields> {
    match first_where(c, |x: ConnV| x.id == id || x.id == input_id) {
        Some(x) => x.headers,
        None => None,
    }
}

pub open spec fn long_name() -> Seq<char> {
    "Connection name is too long (max 64 characters)."@
}

pub open spec fn no_name() -> Seq<char> {
    "Every connection needs a name. Give this instance a device name (e.g. \"Homelab\", \"Work laptop\")."@
}

/// The entry for a gateway that was typed in.
pub open spec fn typed_gateway(
    payload: JsonV,
    r: RegistryV,
    kind: Seq<char>,
    id: Seq<char>,
    label: Seq<char>,
    url: Seq<char>,
) -> ConnV {
    let auth = auth_mode_of(str_field(payload, "authMode"@));
    ConnV {
        url: Some(url),
        auth_mode: Some(auth),
        token: if kind == "remote"@ && auth == "token"@ {
            field(payload, "token"@)
        } else {
            None
        },
        headers: match field(payload, "headers"@) {
            Some(JsonV::Obj(o)) => some_if_any(
                edited_headers(
                    o,
                    stored_headers_of(r.connections, id, str_field_or_empty(payload, "id"@)),
                ),
            ),
            _ => None,
        },
        org: if kind == "cloud"@ {
            nonblank(str_field_or_empty(payload, "org"@))
        } else {
            None
        },
        ..bare_conn(id, kind, label)
    }
}

/// The entry that a typed one amounts to, or the words of the refusal. Names
/// are unique, and so are SSH targets and gateway addresses.
pub open spec fn typed_entry(payload: JsonV, r: RegistryV) -> Result<ConnV, Seq<char>> {
    let label = trimmed(str_field_or_empty(payload, "label"@));
    let input_id = str_field_or_empty(payload, "id"@);
    let kind = str_field_or_empty(payload, "kind"@);
    let id = if input_id.len() > 0 {
        input_id
    } else {
        id_for_label(label, ids_of(r.connections))
    };
    if label.len() == 0 {
        Err(no_name())
    } else if label.len() > 64 {
        Err(long_name())
    } else if name_clash(r.connections, label, input_id) is Some {
        Err(
            "A connection named \""@ + name_clash(r.connections, label, input_id)->0.label
                + "\" already exists. Connection names must be unique."@,
        )
    } else if kind == "local"@ {
        Ok(local_conn(label))
    } else if input_id == "local"@ {
        Err("The id \"local\" is reserved for the local connection."@)
    } else if kind == "ssh"@ {
        match ssh_of(payload) {
            None => Err("SSH connections need a host."@),
            Some(s) => {
                let clash = ssh_clash(
                    r.connections,
                    ssh_key_of(s.user, Some(s.host), s.port, s.remote_profile),
                    id,
                );
                match clash {
                    Some(x) => Err(
                        "A connection to this SSH host already exists (\""@ + x.label + "\")."@,
                    ),
                    None => Ok(with_ssh(bare_conn(id, "ssh"@, label), s)),
                }
            },
        }
    } else if kind == "remote"@ || kind == "cloud"@ {
        match strict_base_url(str_field_or_empty(payload, "url"@)) {
            Err(e) => Err(e),
            Ok(url) => match url_clash(r.connections, url, id) {
                Some(x) => Err(
                    "A connection to this gateway URL already exists (\""@ + x.label + "\")."@,
                ),
                None => Ok(typed_gateway(payload, r, kind, id, label, url)),
            },
        }
    } else {
        Err("Unknown connection kind: "@ + kind)
    }
}

pub open spec fn conn_result(r: Result<RegistryConnection, String>) -> Result<ConnV, Seq<char>> {
    match r {
        Ok(c) => Ok(c@),
        Err(e) => Err(e@),
    }
}

fn find_name_clash(v: &Vec<RegistryConnection>, label: &str, id: &str) -> (r: Option<String>)
    ensures
        opt_text(r) == match name_clash(conns(v@), label@, id@) {
            Some(x) => Some(x.label),
            None => None,
        },
{
    let ghost c = conns(v@);
    let ghost p = |x: ConnV| label_key_of(x.label) == label_key_of(label@) && x.id != id@;
    let key = label_key(label);
    let mut i: usize = 0;
    assert(c.skip(0) =~= c);
    while i < v.len()
        invariant
            i <= v@.len(),
            c == conns(v@),
            key@ == label_key_of(label@),
            p == (|x: ConnV| label_key_of(x.label) == label_key_of(label@) && x.id != id@),
            first_where(c, p) == first_where(c.skip(i as int), p),
        decreases v@.len() - i,
    {
        assert(c.skip(i as int)[0] == v@[i as int]@);
        assert(c.skip(i as int).drop_first() =~= c.skip(i + 1));
        if same(&label_key(&v[i].label), &key) && !same(&v[i].id, id) {
            return Some(v[i].label.clone());
        }
        i += 1;
    }
    None
}

fn find_ssh_clash(v: &Vec<RegistryConnection>, key: &str, id: &str) -> (r: Option<String>)
    ensures
        opt_text(r) == match ssh_clash(conns(v@), key@, id@) {
            Some(x) => Some(x.label),
            None => None,
        },
{
    let ghost c = conns(v@);
    let ghost p = |x: ConnV|
        x.kind == "ssh"@ && x.id != id@ && ssh_key_of(x.user, x.host, x.port, x.remote_profile)
            == key@;
    let mut i: usize = 0;
    assert(c.skip(0) =~= c);
    while i < v.len()
        invariant
            i <= v@.len(),
            c == conns(v@),
            p == (|x: ConnV|
                x.kind == "ssh"@ && x.id != id@ && ssh_key_of(
                    x.user,
                    x.host,
                    x.port,
                    x.remote_profile,
                ) == key@),
            first_where(c, p) == first_where(c.skip(i as int), p),
        decreases v@.len() - i,
    {
        assert(c.skip(i as int)[0] == v@[i as int]@);
        assert(c.skip(i as int).drop_first() =~= c.skip(i + 1));
        if same(&v[i].kind, "ssh") && !same(&v[i].id, id) {
            let k = ssh_key(&v[i].user, &v[i].host, v[i].port, &v[i].remote_profile);
            if same(&k, key) {
                return Some(v[i].label.clone());
            }
        }
        i += 1;
    }
    None
}

fn find_url_clash(v: &Vec<RegistryConnection>, url: &str, id: &str) -> (r: Option<String>)
    ensures
        opt_text(r) == match url_clash(conns(v@), url@, id@) {
            Some(x) => Some(x.label),
            None => None,
        },
{
    let ghost c = conns(v@);
    let ghost p = |x: ConnV|
        (x.kind == "remote"@ || x.kind == "cloud"@) && x.id != id@ && x.url is Some && url_key_of(
            x.url->0,
        ) == url_key_of(url@);
    let key = url_key(url);
    let mut i: usize = 0;
    assert(c.skip(0) =~= c);
    while i < v.len()
        invariant
            i <= v@.len(),
            c == conns(v@),
            key@ == url_key_of(url@),
            p == (|x: ConnV|
                (x.kind == "remote"@ || x.kind == "cloud"@) && x.id != id@ && x.url is Some
                    && url_key_of(x.url->0) == url_key_of(url@)),
            first_where(c, p) == first_where(c.skip(i as int), p),
        decreases v@.len() - i,
    {
        assert(c.skip(i as int)[0] == v@[i as int]@);
        assert(c.skip(i as int).drop_first() =~= c.skip(i + 1));
        if (same(&v[i].kind, "remote") || same(&v[i].kind, "cloud")) && !same(&v[i].id, id) {
            if let Some(u) = &v[i].url {
                if same(&url_key(u), &key) {
                    return Some(v[i].label.clone());
                }
            }
        }
        i += 1;
    }
    None
}

fn find_stored_headers<'a>(v: &'a Vec<RegistryConnection>, id: &str, input_id: &str) -> (r: Option<
    &'a Vec<(String, Json)>,
>)
    ensures
        (match r {
            Some(h) => Some(fields(h@)),
            None => None,
        }) == stored_headers_of(conns(v@), id@, input_id@),
{
    let ghost c = conns(v@);
    let ghost p = |x: ConnV| x.id == id@ || x.id == input_id@;
    let mut i: usize = 0;
    assert(c.skip(0) =~= c);
    while i < v.len()
        invariant
            i <= v@.len(),
            c == conns(v@),
            p == (|x: ConnV| x.id == id@ || x.id == input_id@),
            first_where(c, p) == first_where(c.skip(i as int), p),
        decreases v@.len() - i,
    {
        assert(c.skip(i as int)[0] == v@[i as int]@);
        assert(c.skip(i as int).drop_first() =~= c.skip(i + 1));
        if same(&v[i].id, id) || same(&v[i].id, input_id) {
            return match &v[i].headers {
                Some(h) => Some(h),
                None => None,
            };
        }
        i += 1;
    }
    None
}

fn edit_headers(o: &Vec<(String, Json)>, stored: Option<&Vec<(String, Json)>>) -> (r: Vec<
    (String, Json),
>)
    ensures
        fields(r@) == edited_headers(
            fields(o@),
            match stored {
                Some(h) => Some(fields(h@)),
                None => None,
            },
        ),
{
    let ghost f = fields(o@);
    let ghost st = match stored {
        Some(h) => Some(fields(h@)),
        None => None,
    };
    let mut out: Vec<(String, Json)> = Vec::new();
    assert(fields(out@) =~= edited_headers(f.take(0), st));
    let mut i: usize = 0;
    while i < o.len()
        invariant
            i <= o@.len(),
            f == fields(o@),
            st == (match stored {
                Some(h) => Some(fields(h@)),
                None => None,
            }),
            fields(out@) == edited_headers(f.take(i as int), st),
        decreases o@.len() - i,
    {
        assert(f.take(i + 1).drop_last() =~= f.take(i as int));
        assert(f.take(i + 1).last() == (o@[i as int].0@, o@[i as int].1@));
        let name = trim(&o[i].0);
        if is_storable_header(&name) {
            match &o[i].1 {
                Json::Null => {
                    if let Some(h) = stored {
                        if let Some(value) = find_field(h, &name) {
                            set_field(&mut out, &name, value.dup());
                        }
                    }
                },
                value => {
                    if let Some(plain) = usable_header_value(value) {
                        set_field(&mut out, &name, Json::Str(plain));
                    }
                },
            }
        }
        i += 1;
    }
    assert(f.take(i as int) =~= f);
    out
}

/// Checks a typed entry against the registry. What comes out has all that its
/// kind needs, and only the local entry has the local id.
pub fn normalize_connection_input(payload: &Json, registry: &ConnectionRegistry) -> (r: Result<
    RegistryConnection,
    String,
>)
    ensures
        conn_result(r) == typed_entry(payload@, registry@),
        r is Ok ==> usable_entry(r->Ok_0@) && (r->Ok_0@.id == "local"@ ==> r->Ok_0@.kind
            == "local"@),
{
    broadcast use crate::json::group_json_views;

    proof {
        lemma_kinds_differ();
    }
    let label = trim(&payload.get_str_or_empty("label"));
    if label.as_str().is_empty() {
        return Err(
            "Every connection needs a name. Give this instance a device name (e.g. \"Homelab\", \"Work laptop\").".to_string(),
        );
    }
    if chars_of(&label).len() > LABEL_MAX {
        return Err("Connection name is too long (max 64 characters).".to_string());
    }
    let input_id = payload.get_str_or_empty("id");
    if let Some(other) = find_name_clash(&registry.connections, &label, &input_id) {
        let mut e = "A connection named \"".to_string();
        e.append(&other);
        e.append("\" already exists. Connection names must be unique.");
        return Err(e);
    }
    let kind = payload.get_str_or_empty("kind");
    if same(&kind, "local") {
        return Ok(local_entry(&label));
    }
    if same(&input_id, "local") {
        return Err("The id \"local\" is reserved for the local connection.".to_string());
    }
    let id = if !input_id.as_str().is_empty() {
        input_id.clone()
    } else {
        connection_id_for_label(&label, &list_ids(&registry.connections))
    };
    if same(&kind, "ssh") {
        let ssh = match read_ssh(payload) {
            Some(s) => s,
            None => {
                return Err("SSH connections need a host.".to_string());
            },
        };
        let key = ssh_key(&ssh.user, &Some(ssh.host.clone()), ssh.port, &ssh.remote_profile);
        if let Some(other) = find_ssh_clash(&registry.connections, &key, &id) {
            let mut e = "A connection to this SSH host already exists (\"".to_string();
            e.append(&other);
            e.append("\").");
            return Err(e);
        }
        return Ok(put_ssh(RegistryConnection::bare(id, "ssh", label), ssh));
    }
    if same(&kind, "remote") || same(&kind, "cloud") {
        let url = match normalize_remote_base_url_strict(&payload.get_str_or_empty("url")) {
            Ok(u) => u,
            Err(e) => {
                return Err(e);
            },
        };
        if let Some(other) = find_url_clash(&registry.connections, &url, &id) {
            let mut e = "A connection to this gateway URL already exists (\"".to_string();
            e.append(&other);
            e.append("\").");
            return Err(e);
        }
        let auth = norm_auth_mode(&payload.get_str("authMode"));
        let mut entry = RegistryConnection::bare(id.clone(), &kind, label);
        entry.url = Some(url);
        if same(&kind, "remote") && same(&auth, "token") {
            entry.token = match payload.get("token") {
                Some(t) => Some(t.dup()),
                None => None,
            };
        }
        entry.auth_mode = Some(auth);
        entry.headers = match payload.get("headers") {
            Some(Json::Obj(o)) => {
                let stored = find_stored_headers(&registry.connections, &id, &input_id);
                let edited = edit_headers(o, stored);
                assert(fields(edited@).len() == edited@.len());
                if edited.len() > 0 {
                    Some(edited)
                } else {
                    None
                }
            },
            _ => None,
        };
        if same(&kind, "cloud") {
            entry.org = trim_nonblank(&payload.get_str_or_empty("org"));
        }
        return Ok(entry);
    }
    let mut e = "Unknown connection kind: ".to_string();
    e.append(&kind);
    Err(e)
}

// ---------------------------------------------------------------------------
// Merging an edit
// ---------------------------------------------------------------------------

/// The field kept from the stored entry, when the edit does not carry it.
pub open spec fn inherit(o: Fields, k: Seq<char>, stored: Option<JsonV>) -> Fields {
    if lookup(o, k) is Some {
        o
    } else {
        put_opt(o, k, stored)
    }
}

/// An edit with what it does not carry taken from the stored entry of the same
/// kind. A host that was typed decides on user and port.
pub open spec fn merged_input(payload: JsonV, existing: Option<ConnV>) -> JsonV {
    match (existing, payload) {
        (Some(e), JsonV::Obj(o)) => if e.kind != str_field_or_empty(payload, "kind"@) {
            payload
        } else {
            let o = inherit(o, "url"@, opt_str_value(e.url));
            let o = inherit(o, "authMode"@, opt_str_value(e.auth_mode));
            let o = inherit(o, "org"@, opt_str_value(e.org));
            let o = inherit(o, "host"@, opt_str_value(e.host));
            let o = inherit(o, "keyPath"@, opt_str_value(e.key_path));
            let o = inherit(o, "remoteHermesPath"@, opt_str_value(e.remote_hermes_path));
            let o = inherit(o, "remoteProfile"@, opt_str_value(e.remote_profile));
            let o = inherit(o, "headers"@, opt_obj_value(e.headers));
            if trimmed(str_field_or_empty(payload, "host"@)).len() > 0 {
                JsonV::Obj(o)
            } else {
                let o = inherit(o, "user"@, opt_str_value(e.user));
                JsonV::Obj(inherit(o, "port"@, opt_int_value(e.port)))
            }
        },
        _ => payload,
    }
}

fn inherit_value(o: &mut Vec<(String, Json)>, k: &str, stored: Option<Json>)
    ensures
        fields(final(o)@) == inherit(fields(old(o)@), k@, opt_json(stored)),
{
    if find_field(o, k).is_none() {
        if let Some(j) = stored {
            set_field(o, k, j);
        }
    }
}

fn inherit_text(o: &mut Vec<(String, Json)>, k: &str, stored: &Option<String>)
    ensures
        fields(final(o)@) == inherit(fields(old(o)@), k@, opt_str_value(opt_text(*stored))),
{
    let j = match stored {
        Some(s) => Some(Json::Str(s.clone())),
        None => None,
    };
    inherit_value(o, k, j);
}

/// Merges an edit over the stored entry. An edit of a stored entry of the same
/// kind is an object.
pub fn merge_connection_input(payload: &Json, existing: Option<&RegistryConnection>) -> (r: Json)
    requires
        match existing {
            Some(e) => e@.kind == str_field_or_empty(payload@, "kind"@) ==> payload@ is Obj,
            None => true,
        },
    ensures
        r@ == merged_input(
            payload@,
            match existing {
                Some(e) => Some(e@),
                None => None,
            },
        ),
{
    broadcast use crate::json::group_json_views;

    let e = match existing {
        Some(e) => e,
        None => {
            return payload.dup();
        },
    };
    if !same(&e.kind, &payload.get_str_or_empty("kind")) {
        return payload.dup();
    }
    match payload {
        Json::Obj(p) => {
            let mut o = dup_fields(p);
            inherit_text(&mut o, "url", &e.url);
            inherit_text(&mut o, "authMode", &e.auth_mode);
            inherit_text(&mut o, "org", &e.org);
            inherit_text(&mut o, "host", &e.host);
            inherit_text(&mut o, "keyPath", &e.key_path);
            inherit_text(&mut o, "remoteHermesPath", &e.remote_hermes_path);
            inherit_text(&mut o, "remoteProfile", &e.remote_profile);
            let headers = match &e.headers {
                Some(h) => Some(Json::Obj(dup_fields(h))),
                None => None,
            };
            inherit_value(&mut o, "headers", headers);
            let host = trim(&payload.get_str_or_empty("host"));
            if host.as_str().is_empty() {
                inherit_text(&mut o, "user", &e.user);
                let port = match e.port {
                    Some(n) => Some(Json::Int(n)),
                    None => None,
                };
                inherit_value(&mut o, "port", port);
            }
            Json::Obj(o)
        },
        _ => payload.dup(),
    }
}

// ---------------------------------------------------------------------------
// Saving
// ---------------------------------------------------------------------------

/// Whether two entries are dialled differently; the name does not matter.
pub open spec fn dials_differently(a: ConnV, b: ConnV) -> bool {
    a.kind != b.kind || (ConnV { id: a.id, label: a.label, ..b }) != a
}

fn same_json_opt(a: &Option<Json>, b: &Option<Json>) -> (r: bool)
    ensures
        r == (opt_json(*a) == opt_json(*b)),
{
    match (a, b) {
        (Some(x), Some(y)) => x.equals(y),
        (None, None) => true,
        _ => false,
    }
}

fn same_headers_opt(a: &Option<Vec<(String, Json)>>, b: &Option<Vec<(String, Json)>>) -> (r: bool)
    ensures
        r == (opt_fields(*a) == opt_fields(*b)),
{
    match (a, b) {
        (Some(x), Some(y)) => same_fields(x, y),
        (None, None) => true,
        _ => false,
    }
}

fn same_port(a: Option<i64>, b: Option<i64>) -> (r: bool)
    ensures
        r == (a == b),
{
    match (a, b) {
        (Some(x), Some(y)) => x == y,
        (None, None) => true,
        _ => false,
    }
}

pub fn dial_fields_changed(before: &RegistryConnection, after: &RegistryConnection) -> (r: bool)
    ensures
        r == dials_differently(before@, after@),
{
    if !same(&before.kind, &after.kind) {
        return true;
    }
    let equal = same_opt(&before.url, &after.url) && same_opt(&before.auth_mode, &after.auth_mode)
        && same_opt(&before.org, &after.org) && same_opt(&before.host, &after.host) && same_opt(
        &before.user,
        &after.user,
    ) && same_port(before.port, after.port) && same_opt(&before.key_path, &after.key_path)
        && same_opt(&before.remote_hermes_path, &after.remote_hermes_path) && same_opt(
        &before.remote_profile,
        &after.remote_profile,
    ) && same_json_opt(&before.token, &after.token) && same_headers_opt(
        &before.headers,
        &after.headers,
    );
    proof {
        let a = before@;
        let b = ConnV { id: a.id, label: a.label, ..after@ };
        if equal {
            assert(b =~= a);
        }
    }
    !equal
}

/// The entries with one put in: in the place of the one with its id, else last.
pub open spec fn upserted(c: Seq<ConnV>, entry: ConnV) -> Seq<ConnV> {
    match position_of(c, entry.id) {
        Some(i) => c.update(i, entry),
        None => c.push(entry),
    }
}

/// The payload with its token settled: one that was typed, trimmed, else the
/// stored one.
pub open spec fn with_token(payload: JsonV, existing: Option<ConnV>) -> JsonV {
    match payload {
        JsonV::Obj(o) => match str_field(payload, "token"@) {
            Some(t) => JsonV::Obj(put(o, "token"@, JsonV::Str(trimmed(t)))),
            None => match existing {
                Some(e) => JsonV::Obj(put_opt(o, "token"@, e.token)),
                None => payload,
            },
        },
        _ => payload,
    }
}

/// A gateway with a session token must have one.
pub open spec fn lacks_token(c: ConnV) -> bool {
    c.kind == "remote"@ && c.auth_mode != Some("oauth"@) && !(match c.token {
        Some(JsonV::Str(t)) => trimmed(t).len() > 0,
        _ => false,
    })
}

/// What a saved entry leads to.
pub struct SaveOutcome {
    pub entry: RegistryConnection,
    pub next: ConnectionRegistry,
    /// Whether what is dialled has changed, or only the name.
    pub dial_changed: bool,
}

/// The stored entry that an edit names.
pub open spec fn edited_entry(payload: JsonV, r: RegistryV) -> Option<ConnV> {
    let id = str_field_or_empty(payload, "id"@);
    if id.len() == 0 {
        None
    } else {
        conn_with_id(r.connections, id)
    }
}

/// The entry that a save stores, or the words of the refusal.
pub open spec fn saved_entry(payload: JsonV, r: RegistryV) -> Result<ConnV, Seq<char>> {
    if !(payload is Obj) {
        Err("save payload must be an object"@)
    } else {
        let existing = edited_entry(payload, r);
        match typed_entry(merged_input(with_token(payload, existing), existing), r) {
            Err(e) => Err(e),
            Ok(c) => if lacks_token(c) {
                Err("Remote gateway session token is required."@)
            } else {
                Ok(c)
            },
        }
    }
}

pub open spec fn with_connections(r: RegistryV, c: Seq<ConnV>) -> RegistryV {
    RegistryV { connections: c, ..r }
}

pub proof fn lemma_upsert_sound(r: RegistryV, entry: ConnV)
    requires
        sound(r),
        usable_entry(entry),
        entry.id == "local"@ ==> entry.kind == "local"@,
    ensures
        sound(with_connections(r, upserted(r.connections, entry))),
{
    let c = r.connections;
    let d = upserted(c, entry);
    lemma_position(c, entry.id, 0);
    assert forall|i: int| 0 <= i < d.len() implies usable_entry(#[trigger] d[i]) by {
        if i < c.len() && d[i] != entry {
            assert(d[i] == c[i]);
        }
    }
    let k = choose|k: int| 0 <= k < c.len() && (#[trigger] c[k]).kind == "local"@;
    assert(usable_entry(c[k]));
    assert(d[k].kind == "local"@);
    let a = choose|a: int| 0 <= a < c.len() && (#[trigger] c[a]).id == r.primary;
    assert(d[a].id == r.primary);
    let b = choose|b: int| 0 <= b < c.len() && (#[trigger] c[b]).id == r.last_used;
    assert(d[b].id == r.last_used);
}

pub proof fn lemma_upsert_distinct(c: Seq<ConnV>, entry: ConnV)
    requires
        distinct(ids_of(c)),
    ensures
        distinct(ids_of(upserted(c, entry))),
{
    let d = upserted(c, entry);
    lemma_position(c, entry.id, 0);
    assert forall|i: int, j: int| 0 <= i < j < ids_of(d).len() implies #[trigger] ids_of(d)[i]
        != #[trigger] ids_of(d)[j] by {
        if j < c.len() {
            assert(ids_of(d)[i] == ids_of(c)[i]);
            assert(ids_of(d)[j] == ids_of(c)[j]);
        } else {
            assert(ids_of(d)[i] == c[i].id);
        }
    }
}

/// Saving stores the entry under its id and leaves every other entry, and the
/// order, as they were.
pub proof fn law_save_touches_one_entry(c: Seq<ConnV>, entry: ConnV)
    ensures
        conn_with_id(upserted(c, entry), entry.id) == Some(entry),
        forall|id: Seq<char>|
            id != entry.id ==> #[trigger] conn_with_id(upserted(c, entry), id) == conn_with_id(
                c,
                id,
            ),
        upserted(c, entry).len() == c.len() || upserted(c, entry).len() == c.len() + 1,
        has_id(c, entry.id) ==> upserted(c, entry).len() == c.len(),
{
    let d = upserted(c, entry);
    lemma_position(c, entry.id, 0);
    lemma_position(d, entry.id, 0);
    assert(d[match position_of(c, entry.id) {
        Some(i) => i,
        None => c.len() as int,
    }].id == entry.id);
    assert forall|id: Seq<char>| id != entry.id implies #[trigger] conn_with_id(d, id)
        == conn_with_id(c, id) by {
        lemma_position(c, id, 0);
        lemma_position(d, id, 0);
        match position_of(c, id) {
            Some(k) => {
                assert(d[k] == c[k]);
                let m = position_of(d, id)->0;
                if m < k {
                    assert(c[m].id == id);
                } else if k < m {
                    assert(d[k].id != id);
                }
            },
            None => {
                if let Some(m) = position_of(d, id) {
                    if m < c.len() {
                        assert(c[m].id == id);
                    }
                }
            },
        }
    }
}

fn upsert(v: &mut Vec<RegistryConnection>, entry: RegistryConnection)
    ensures
        conns(final(v)@) == upserted(conns(old(v)@), entry@),
{
    let ghost c = conns(v@);
    let ghost e = entry@;
    match find_position(v, &entry.id) {
        Some(i) => {
            v[i] = entry;
            assert(conns(v@) =~= c.update(i as int, e));
        },
        None => {
            v.push(entry);
            assert(conns(v@) =~= c.push(e));
        },
    }
}

/// What a save leads to: the entry, the registry with it, and whether what is
/// dialled has changed; or the words of the refusal.
pub open spec fn save_of(payload: JsonV, r: RegistryV) -> Result<
    (ConnV, RegistryV, bool),
    Seq<char>,
> {
    match saved_entry(payload, r) {
        Err(e) => Err(e),
        Ok(c) => Ok(
            (
                c,
                with_connections(r, upserted(r.connections, c)),
                match edited_entry(payload, r) {
                    Some(e) => dials_differently(e, c),
                    None => false,
                },
            ),
        ),
    }
}

/// Saves an entry: merges the edit, checks it, and puts it in. A sound registry
/// stays sound, and distinct ids stay distinct.
pub fn save_registry_connection(payload: &Json, registry: &ConnectionRegistry) -> (r: Result<
    SaveOutcome,
    String,
>)
    ensures
        save_of(payload@, registry@) == (match r {
            Err(e) => Err(e@),
            Ok(o) => Ok((o.entry@, o.next@, o.dial_changed)),
        }),
        match r {
            Err(e) => saved_entry(payload@, registry@) == Err::<ConnV, Seq<char>>(e@),
            Ok(o) => {
                &&& saved_entry(payload@, registry@) == Ok::<ConnV, Seq<char>>(o.entry@)
                &&& o.next@ == with_connections(
                    registry@,
                    upserted(registry@.connections, o.entry@),
                )
                &&& sound(registry@) ==> sound(o.next@)
                &&& distinct(ids_of(registry@.connections)) ==> distinct(
                    ids_of(o.next@.connections),
                )
            },
        },
{
    broadcast use crate::json::group_json_views;

    let input_id = payload.get_str_or_empty("id");
    let existing = if input_id.as_str().is_empty() {
        None
    } else {
        match find_position(&registry.connections, &input_id) {
            Some(i) => {
                assert(conns(registry.connections@)[i as int] == registry.connections@[i as int]@);
                Some(&registry.connections[i])
            },
            None => None,
        }
    };
    let ghost e = match existing {
        Some(x) => Some(x@),
        None => None,
    };
    assert(e == edited_entry(payload@, registry@));
    let fields_in = match payload {
        Json::Obj(o) => o,
        _ => {
            return Err("save payload must be an object".to_string());
        },
    };
    let mut o = dup_fields(fields_in);
    match payload.get_str("token") {
        Some(t) => set_field(&mut o, "token", Json::Str(trim(&t))),
        None => {
            if let Some(x) = existing {
                if let Some(t) = &x.token {
                    set_field(&mut o, "token", t.dup());
                }
            }
        },
    }
    let settled = Json::Obj(o);
    assert(settled@ == with_token(payload@, e));
    let merged = merge_connection_input(&settled, existing);
    let entry = match normalize_connection_input(&merged, registry) {
        Ok(c) => c,
        Err(msg) => {
            return Err(msg);
        },
    };
    let oauth = match &entry.auth_mode {
        Some(m) => same(m, "oauth"),
        None => false,
    };
    let usable_token = match &entry.token {
        Some(Json::Str(t)) => {
            let shown = trim(t);
            !shown.as_str().is_empty()
        },
        _ => false,
    };
    if same(&entry.kind, "remote") && !oauth && !usable_token {
        return Err("Remote gateway session token is required.".to_string());
    }
    let dial_changed = match existing {
        Some(x) => dial_fields_changed(x, &entry),
        None => false,
    };
    let mut next = registry.dup();
    let kept = entry.dup();
    upsert(&mut next.connections, kept);
    proof {
        if sound(registry@) {
            lemma_upsert_sound(registry@, entry@);
        }
        if distinct(ids_of(registry@.connections)) {
            lemma_upsert_distinct(registry@.connections, entry@);
        }
        assert(next@ =~= with_connections(registry@, upserted(registry@.connections, entry@)));
    }
    Ok(SaveOutcome { entry, next, dial_changed })
}

/// The event that a save is announced with.
pub open spec fn reason_of(dial_changed: bool) -> Seq<char> {
    if dial_changed {
        "updated"@
    } else {
        "saved"@
    }
}

pub fn save_reason(dial_changed: bool) -> (r: String)
    ensures
        r@ == reason_of(dial_changed),
{
    if dial_changed {
        "updated".to_string()
    } else {
        "saved".to_string()
    }
}

// ---------------------------------------------------------------------------
// Removing and choosing
// ---------------------------------------------------------------------------

pub open spec fn without_id(c: Seq<ConnV>, id: Seq<char>) -> Seq<ConnV>
    decreases c.len(),
{
    if c.len() == 0 {
        c
    } else if c.last().id == id {
        without_id(c.drop_last(), id)
    } else {
        without_id(c.drop_last(), id).push(c.last())
    }
}

/// The registry without an entry; what pointed at it points elsewhere.
pub open spec fn removed(r: RegistryV, key: Seq<char>) -> RegistryV {
    let primary = if r.primary == key {
        "local"@
    } else {
        r.primary
    };
    RegistryV {
        connections: without_id(r.connections, key),
        primary,
        last_used: if r.last_used == key {
            primary
        } else {
            r.last_used
        },
        ..r
    }
}

pub proof fn lemma_without_id(c: Seq<ConnV>, id: Seq<char>)
    ensures
        forall|i: int|
            0 <= i < without_id(c, id).len() ==> (#[trigger] without_id(c, id)[i]).id != id
                && c.contains(without_id(c, id)[i]),
        forall|i: int|
            0 <= i < c.len() && (#[trigger] c[i]).id != id ==> without_id(c, id).contains(c[i]),
        distinct(ids_of(c)) ==> distinct(ids_of(without_id(c, id))),
    decreases c.len(),
{
    if c.len() > 0 {
        let b = c.drop_last();
        lemma_without_id(b, id);
        let d = without_id(c, id);
        let w = without_id(b, id);
        assert forall|i: int| 0 <= i < d.len() implies (#[trigger] d[i]).id != id && c.contains(
            d[i],
        ) by {
            if i < w.len() {
                assert(d[i] == w[i]);
                let k = choose|k: int| 0 <= k < b.len() && b[k] == w[i];
                assert(c[k] == d[i]);
            } else {
                assert(c[c.len() - 1] == d[i]);
            }
        }
        assert forall|i: int| 0 <= i < c.len() && (#[trigger] c[i]).id != id implies d.contains(
            c[i],
        ) by {
            if i < b.len() {
                assert(b[i] == c[i]);
                assert(w.contains(b[i]));
                let k = choose|k: int| 0 <= k < w.len() && w[k] == b[i];
                assert(d[k] == c[i]);
            } else {
                assert(d[d.len() - 1] == c[i]);
            }
        }
        if distinct(ids_of(c)) {
            assert forall|i: int, j: int| 0 <= i < j < ids_of(b).len() implies #[trigger] ids_of(
                b,
            )[i] != #[trigger] ids_of(b)[j] by {
                assert(ids_of(b)[i] == ids_of(c)[i]);
                assert(ids_of(b)[j] == ids_of(c)[j]);
            }
            assert forall|i: int, j: int| 0 <= i < j < ids_of(d).len() implies #[trigger] ids_of(
                d,
            )[i] != #[trigger] ids_of(d)[j] by {
                if j < w.len() {
                    assert(ids_of(d)[i] == ids_of(w)[i]);
                    assert(ids_of(d)[j] == ids_of(w)[j]);
                } else {
                    assert(d[i] == w[i]);
                    let k = choose|k: int| 0 <= k < b.len() && b[k] == w[i];
                    assert(ids_of(c)[k] == c[k].id);
                    assert(ids_of(c)[c.len() - 1] == c.last().id);
                }
            }
        }
    }
}

/// A sound registry with distinct ids stays so when a connection other than the
/// local one is removed.
pub proof fn lemma_removed_sound(r: RegistryV, key: Seq<char>)
    requires
        sound(r),
        distinct(ids_of(r.connections)),
        conn_with_id(r.connections, key) is Some,
        conn_with_id(r.connections, key)->0.kind != "local"@,
    ensures
        sound(removed(r, key)),
        distinct(ids_of(removed(r, key).connections)),
{
    let c = r.connections;
    let d = without_id(c, key);
    lemma_without_id(c, key);
    lemma_position(c, key, 0);
    let t = position_of(c, key)->0;
    let k = choose|k: int| 0 <= k < c.len() && (#[trigger] c[k]).kind == "local"@;
    assert(usable_entry(c[k]));
    assert(ids_of(c)[k] == c[k].id && ids_of(c)[t] == c[t].id);
    assert(c[k].id != key) by {
        if c[k].id == key {
            if k < t {
                assert(ids_of(c)[k] != ids_of(c)[t]);
            } else if t < k {
                assert(ids_of(c)[t] != ids_of(c)[k]);
            }
        }
    }
    assert(d.contains(c[k]));
    let m = choose|m: int| 0 <= m < d.len() && d[m] == c[k];
    assert(d[m].kind == "local"@ && d[m].id == "local"@);
    assert(has_id(d, "local"@));
    assert forall|i: int| 0 <= i < d.len() implies usable_entry(#[trigger] d[i]) by {
        assert(c.contains(d[i]));
        let x = choose|x: int| 0 <= x < c.len() && c[x] == d[i];
        assert(usable_entry(c[x]));
    }
    if r.primary != key {
        let a = choose|a: int| 0 <= a < c.len() && (#[trigger] c[a]).id == r.primary;
        assert(d.contains(c[a]));
        let x = choose|x: int| 0 <= x < d.len() && d[x] == c[a];
        assert(d[x].id == r.primary);
    }
    if r.last_used != key {
        let a = choose|a: int| 0 <= a < c.len() && (#[trigger] c[a]).id == r.last_used;
        assert(d.contains(c[a]));
        let x = choose|x: int| 0 <= x < d.len() && d[x] == c[a];
        assert(d[x].id == r.last_used);
    }
}

fn drop_id(v: &Vec<RegistryConnection>, id: &str) -> (r: Vec<RegistryConnection>)
    ensures
        conns(r@) == without_id(conns(v@), id@),
{
    let ghost c = conns(v@);
    let mut out: Vec<RegistryConnection> = Vec::new();
    assert(conns(out@) =~= without_id(c.take(0), id@));
    let mut i: usize = 0;
    while i < v.len()
        invariant
            i <= v@.len(),
            c == conns(v@),
            conns(out@) == without_id(c.take(i as int), id@),
        decreases v@.len() - i,
    {
        assert(c.take(i + 1).drop_last() =~= c.take(i as int));
        assert(c.take(i + 1).last() == v@[i as int]@);
        if !same(&v[i].id, id) {
            let ghost before = conns(out@);
            let x = v[i].dup();
            out.push(x);
            assert(conns(out@) =~= before.push(x@));
        }
        i += 1;
    }
    assert(c.take(i as int) =~= c);
    out
}

pub open spec fn registry_result(r: Result<ConnectionRegistry, String>) -> Result<
    RegistryV,
    Seq<char>,
> {
    match r {
        Ok(x) => Ok(x@),
        Err(e) => Err(e@),
    }
}

/// The registry after a removal, or the words of the refusal.
pub open spec fn removal_of(r: RegistryV, id: Seq<char>) -> Result<RegistryV, Seq<char>> {
    match conn_with_id(r.connections, trimmed(id)) {
        None => Err(no_such_connection(trimmed(id))),
        Some(c) => if c.kind == "local"@ {
            Err("The local connection cannot be removed."@)
        } else {
            Ok(removed(r, trimmed(id)))
        },
    }
}

/// Removes a connection. The local one stays; a removed primary gives way to
/// it. A sound registry with distinct ids stays so.
pub fn connections_remove(registry: &ConnectionRegistry, id: &str) -> (r: Result<
    ConnectionRegistry,
    String,
>)
    ensures
        registry_result(r) == removal_of(registry@, id@),
        r is Ok && sound(registry@) && distinct(ids_of(registry@.connections)) ==> sound(
            r->Ok_0@,
        ) && distinct(ids_of(r->Ok_0@.connections)),
{
    let key = trim(id);
    let local = match find_entry(registry, &key) {
        Ok(c) => same(&c.kind, "local"),
        Err(e) => {
            return Err(e);
        },
    };
    if local {
        return Err("The local connection cannot be removed.".to_string());
    }
    let mut next = registry.dup();
    next.connections = drop_id(&registry.connections, &key);
    if same(&next.primary, &key) {
        next.primary = "local".to_string();
    }
    if same(&next.last_used, &key) {
        next.last_used = next.primary.clone();
    }
    proof {
        assert(next@ =~= removed(registry@, key@));
        if sound(registry@) && distinct(ids_of(registry@.connections)) {
            lemma_removed_sound(registry@, key@);
        }
    }
    Ok(next)
}

/// A removed connection is gone, and no other is.
pub proof fn law_remove_takes_exactly_one_id(c: Seq<ConnV>, id: Seq<char>)
    ensures
        !has_id(without_id(c, id), id),
        forall|i: int|
            0 <= i < c.len() && (#[trigger] c[i]).id != id ==> without_id(c, id).contains(c[i]),
{
    lemma_without_id(c, id);
}

proof fn lemma_has_position(c: Seq<ConnV>, id: Seq<char>)
    ensures
        has_id(c, id) <==> conn_with_id(c, id) is Some,
{
    lemma_position(c, id, 0);
    if let Some(k) = position_of(c, id) {
        assert(c[k].id == id);
    }
}

/// The registry with another primary connection, or the words of the refusal.
pub open spec fn primary_set(r: RegistryV, id: Seq<char>) -> Result<RegistryV, Seq<char>> {
    if has_id(r.connections, trimmed(id)) {
        Ok(RegistryV { primary: trimmed(id), ..r })
    } else {
        Err(no_such_connection(trimmed(id)))
    }
}

/// The registry with another connection used last, or the words of the refusal.
pub open spec fn last_used_set(r: RegistryV, id: Seq<char>) -> Result<RegistryV, Seq<char>> {
    if has_id(r.connections, trimmed(id)) {
        Ok(RegistryV { last_used: trimmed(id), ..r })
    } else {
        Err(no_such_connection(trimmed(id)))
    }
}

/// The registry with another choice of what a launch opens on, or the words of
/// the refusal.
pub open spec fn launch_mode_set(r: RegistryV, mode: Seq<char>) -> Result<RegistryV, Seq<char>> {
    if mode == "last-used"@ || mode == "primary"@ {
        Ok(RegistryV { launch_mode: mode, ..r })
    } else {
        Err("Unknown connection launch mode \""@ + mode + "\"."@)
    }
}

/// Points the primary designation at another connection.
pub fn connections_set_primary(registry: &ConnectionRegistry, id: &str) -> (r: Result<
    ConnectionRegistry,
    String,
>)
    ensures
        registry_result(r) == primary_set(registry@, id@),
        r is Ok && sound(registry@) ==> sound(r->Ok_0@),
{
    let key = trim(id);
    proof {
        lemma_has_position(registry@.connections, key@);
    }
    if let Err(e) = find_entry(registry, &key) {
        return Err(e);
    }
    let mut next = registry.dup();
    next.primary = key;
    Ok(next)
}

/// Remembers the connection that was opened last.
pub fn connections_set_last_used(registry: &ConnectionRegistry, id: &str) -> (r: Result<
    ConnectionRegistry,
    String,
>)
    ensures
        registry_result(r) == last_used_set(registry@, id@),
        r is Ok && sound(registry@) ==> sound(r->Ok_0@),
{
    let key = trim(id);
    proof {
        lemma_has_position(registry@.connections, key@);
    }
    if let Err(e) = find_entry(registry, &key) {
        return Err(e);
    }
    let mut next = registry.dup();
    next.last_used = key;
    Ok(next)
}

/// Chooses what a launch opens on.
pub fn connections_set_launch_mode(registry: &ConnectionRegistry, mode: &str) -> (r: Result<
    ConnectionRegistry,
    String,
>)
    ensures
        registry_result(r) == launch_mode_set(registry@, mode@),
        r is Ok && sound(registry@) ==> sound(r->Ok_0@),
{
    if !same(mode, "last-used") && !same(mode, "primary") {
        let mut e = "Unknown connection launch mode \"".to_string();
        e.append(mode);
        e.append("\".");
        return Err(e);
    }
    let mut next = registry.dup();
    next.launch_mode = mode.to_string();
    Ok(next)
}

} // verus!
