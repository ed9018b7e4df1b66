//! Using the registry: the views that leave the process, the targets of
//! requests, and the answers of the connection commands.

use crate::commands::{
    append_headers, build_connection, connection_fields, entry_ws_url, header_views, json_result,
    local_connection, token_header, ws_answer, ws_answer_json, ws_url_of, BackendState,
};
use crate::connection_config::{looks_alike, preview_of, token_preview};
use crate::connections::{conn_with_id, find_entry, no_such_connection};
use crate::json::{
    field, fields, items, no_fields, opt_str, put, set_field, str_field, str_field_or_empty, strs,
    Fields, Json, JsonV,
};
use crate::outside::{lossy_text, parse_url, random_bytes, text_lossy, url_of};
use crate::registry::{
    conns, copy_headers, host_label_from_base_url, host_label_of, opt_fields, opt_json,
    opt_nonblank, quarantined_views, trim_nonblank, usable_header, usable_header_value, ConnV,
    ConnectionRegistry, QuarantinedEntry, QuarantinedV, RegistryConnection, RegistryV,
};
use crate::registry_store::{opt_int_value, opt_str_value, put_opt};
use crate::text::{
    dec, decimal, hex, hex_of, list_has, opt_text, same, texts, trim, trim_end_char, trim_end_of,
    trimmed, unit_result, Class,
};
use vstd::prelude::*;

verus! {

// ---------------------------------------------------------------------------
// Tokens and headers
// ---------------------------------------------------------------------------

/// The token that an entry is dialled with; empty when it has no readable one.
pub open spec fn token_of_entry(c: ConnV) -> Seq<char> {
    match c.token {
        Some(JsonV::Str(t)) => trimmed(t),
        _ => Seq::empty(),
    }
}

pub fn entry_token(entry: &RegistryConnection) -> (r: String)
    ensures
        r@ == token_of_entry(entry@),
{
    match &entry.token {
        Some(Json::Str(t)) => trim(t),
        _ => {
            let none = String::new();
            assert(none@ =~= Seq::<char>::empty());
            none
        },
    }
}

/// The headers that can be sent, in the order of their names.
pub open spec fn sendable(o: Fields) -> Seq<(Seq<char>, Seq<char>)>
    decreases o.len(),
{
    if o.len() == 0 {
        Seq::empty()
    } else {
        match usable_header(o.last().1) {
            Some(v) => sendable(o.drop_last()).push((o.last().0, v)),
            None => sendable(o.drop_last()),
        }
    }
}

pub open spec fn sendable_opt(o: Option<Fields>) -> Seq<(Seq<char>, Seq<char>)> {
    match o {
        Some(f) => sendable(f),
        None => Seq::empty(),
    }
}

/// Flattens stored headers into what is sent.
pub fn sendable_headers(o: &Option<Vec<(String, Json)>>) -> (r: Vec<(String, String)>)
    ensures
        header_views(r@) == sendable_opt(opt_fields(*o)),
{
    let mut out: Vec<(String, String)> = Vec::new();
    assert(header_views(out@) =~= Seq::<(Seq<char>, Seq<char>)>::empty());
    if let Some(v) = o {
        let ghost f = fields(v@);
        assert(f.take(0) =~= no_fields());
        let mut i: usize = 0;
        while i < v.len()
            invariant
                i <= v@.len(),
                f == fields(v@),
                header_views(out@) == sendable(f.take(i as int)),
            decreases v@.len() - i,
        {
            assert(f.take(i + 1).drop_last() =~= f.take(i as int));
            assert(f.take(i + 1).last() == (v@[i as int].0@, v@[i as int].1@));
            if let Some(value) = usable_header_value(&v[i].1) {
                let ghost before = header_views(out@);
                let pair = (v[i].0.clone(), value);
                out.push(pair);
                assert(header_views(out@) =~= before.push((pair.0@, pair.1@)));
            }
            i += 1;
        }
        assert(f.take(i as int) =~= f);
    }
    out
}

/// The headers of a request to a registered gateway: its token, then its own.
pub fn remote_auth_headers(token: &str, headers: &Option<Vec<(String, Json)>>) -> (r: Vec<
    (String, String),
>)
    ensures
        header_views(r@) == token_header(token@) + sendable_opt(opt_fields(*headers)),
{
    let mut out: Vec<(String, String)> = Vec::new();
    if !token.is_empty() {
        out.push(("X-Hermes-Session-Token".to_string(), token.to_string()));
    }
    assert(header_views(out@) =~= token_header(token@));
    append_headers(&mut out, &sendable_headers(headers));
    out
}

/// Refuses an address that is no URL, or whose scheme is not `http` or `https`.
pub open spec fn request_guard(url: Seq<char>, u: Option<crate::outside::UrlV>) -> Result<
    (),
    Seq<char>,
> {
    match u {
        None => Err("invalid gateway URL: "@ + url),
        Some(p) => if p.scheme != "http"@ && p.scheme != "https"@ {
            Err("unsupported gateway URL scheme: "@ + p.scheme)
        } else {
            Ok(())
        },
    }
}

pub fn check_request_url(url: &str) -> (r: Result<(), String>)
    ensures
        unit_result(r) == request_guard(url@, url_of(url@)),
{
    match parse_url(url) {
        None => {
            let mut e = "invalid gateway URL: ".to_string();
            e.append(url);
            Err(e)
        },
        Some(p) => {
            if !same(&p.scheme, "http") && !same(&p.scheme, "https") {
                let mut e = "unsupported gateway URL scheme: ".to_string();
                e.append(&p.scheme);
                Err(e)
            } else {
                Ok(())
            }
        },
    }
}

/// The most bytes of a gateway's reply that are read.
pub const GATEWAY_REPLY_MAX: usize = 524288;

/// What a gateway's reply amounts to. `parsed` is the value that the bytes
/// spell, when they spell one.
pub open spec fn reply_of(status: u16, bytes: Seq<u8>, parsed: Option<JsonV>) -> Result<
    JsonV,
    Seq<char>,
> {
    if bytes.len() > 524288 {
        Err("gateway response exceeded 512 KiB limit"@)
    } else if !crate::commands::success(status) {
        Err("gateway "@ + dec(status as nat) + ": "@ + lossy_text(bytes))
    } else {
        match parsed {
            Some(j) => Ok(j),
            None => Err("gateway returned invalid JSON: "@ + lossy_text(bytes)),
        }
    }
}

pub fn remote_reply(status: u16, bytes: &Vec<u8>, parsed: Option<Json>) -> (r: Result<Json, String>)
    ensures
        json_result(r) == reply_of(status, bytes@, opt_json(parsed)),
{
    if bytes.len() > GATEWAY_REPLY_MAX {
        return Err("gateway response exceeded 512 KiB limit".to_string());
    }
    if status < 200 || status > 299 {
        let mut e = "gateway ".to_string();
        e.append(&decimal(status as u128));
        e.append(": ");
        e.append(&text_lossy(bytes));
        return Err(e);
    }
    match parsed {
        Some(j) => Ok(j),
        None => {
            let mut e = "gateway returned invalid JSON: ".to_string();
            e.append(&text_lossy(bytes));
            Err(e)
        },
    }
}

// ---------------------------------------------------------------------------
// Last-known identities
// ---------------------------------------------------------------------------

/// The identities that backends reported, with when.
pub struct InstallIds {
    pub known: Vec<(String, (Option<String>, u64))>,
}

pub open spec fn known_views(v: Seq<(String, (Option<String>, u64))>) -> Seq<
    (Seq<char>, (Option<Seq<char>>, u64)),
> {
    v.map_values(|p: (String, (Option<String>, u64))| (p.0@, (opt_text(p.1.0), p.1.1)))
}

pub open spec fn recall(
    k: Seq<(Seq<char>, (Option<Seq<char>>, u64))>,
    id: Seq<char>,
) -> Option<(Option<Seq<char>>, u64)>
    decreases k.len(),
{
    if k.len() == 0 {
        None
    } else if k.last().0 == id {
        Some(k.last().1)
    } else {
        recall(k.drop_last(), id)
    }
}

/// The identity in a status reply.
pub open spec fn reported_id(status: JsonV) -> Option<Seq<char>> {
    opt_nonblank(str_field(status, "install_id"@))
}

/// An identity is trusted for five minutes; that there was none, for one.
pub open spec fn fresh_id(entry: Option<(Option<Seq<char>>, u64)>, now: u64) -> Option<Seq<char>> {
    match entry {
        Some((id, at)) => {
            let age = if now >= at {
                now - at
            } else {
                0
            };
            let ttl: int = if id is Some {
                300000
            } else {
                60000
            };
            if age < ttl {
                id
            } else {
                None
            }
        },
        None => None,
    }
}

/// Replacing the last entry of an id changes what is recalled of it alone.
proof fn lemma_recall_update(
    k: Seq<(Seq<char>, (Option<Seq<char>>, u64))>,
    i: int,
    e: (Seq<char>, (Option<Seq<char>>, u64)),
    id: Seq<char>,
)
    requires
        0 <= i < k.len(),
        k[i].0 == e.0,
        forall|j: int| i < j < k.len() ==> (#[trigger] k[j]).0 != e.0,
    ensures
        recall(k.update(i, e), id) == if id == e.0 {
            Some(e.1)
        } else {
            recall(k, id)
        },
        recall(k, e.0) is Some,
    decreases k.len(),
{
    let rest = k.drop_last();
    if i == k.len() - 1 {
        assert(k.update(i, e).drop_last() =~= rest);
    } else {
        assert(k.update(i, e).drop_last() =~= rest.update(i, e));
        assert forall|j: int| i < j < rest.len() implies (#[trigger] rest[j]).0 != e.0 by {
            assert(rest[j] == k[j]);
        }
        assert(rest[i] == k[i]);
        assert(k.last() == k[k.len() - 1]);
        lemma_recall_update(rest, i, e, id);
    }
}

impl InstallIds {
    pub fn new() -> (r: InstallIds)
        ensures
            r.known@.len() == 0,
    {
        InstallIds { known: Vec::new() }
    }

    /// Remembers the identity in a status reply, and gives it back. What was known
    /// of the connection before is forgotten.
    pub fn remember(&mut self, connection_id: &str, status: &Json, now: u64) -> (r: Option<String>)
        ensures
            opt_text(r) == reported_id(status@),
            forall|id: Seq<char>| #[trigger]
                recall(known_views(final(self).known@), id) == if id == connection_id@ {
                    Some((reported_id(status@), now))
                } else {
                    recall(known_views(old(self).known@), id)
                },
            final(self).known@.len() == if recall(
                known_views(old(self).known@),
                connection_id@,
            ) is None {
                old(self).known@.len() + 1
            } else {
                old(self).known@.len()
            },
    {
        let id = match status.get_str("install_id") {
            Some(s) => trim_nonblank(&s),
            None => None,
        };
        let ghost before = known_views(self.known@);
        let entry = (connection_id.to_string(), (crate::text::copy_opt(&id), now));
        let ghost e = (connection_id@, (reported_id(status@), now));
        let mut n: usize = self.known.len();
        assert(before.take(n as int) =~= before);
        while n > 0
            invariant
                n <= self.known@.len(),
                *self == *old(self),
                before == known_views(self.known@),
                recall(before, connection_id@) == recall(before.take(n as int), connection_id@),
                forall|j: int| n <= j < before.len() ==> (#[trigger] before[j]).0 != connection_id@,
                (entry.0@, (opt_text(entry.1.0), entry.1.1)) == e,
                e == (connection_id@, (reported_id(status@), now)),
                opt_text(id) == reported_id(status@),
            decreases n,
        {
            assert(before.take(n as int).drop_last() =~= before.take(n - 1));
            if same(&self.known[n - 1].0, connection_id) {
                self.known.set(n - 1, entry);
                proof {
                    assert(known_views(self.known@) =~= before.update(n - 1, e));
                    assert forall|other: Seq<char>| #[trigger]
                        recall(before.update(n - 1, e), other) == if other == connection_id@ {
                            Some(e.1)
                        } else {
                            recall(before, other)
                        } by {
                        lemma_recall_update(before, n - 1, e, other);
                    }
                }
                return id;
            }
            n -= 1;
        }
        self.known.push(entry);
        proof {
            let after = known_views(self.known@);
            assert(after =~= before.push(e));
            assert(after.drop_last() =~= before);
        }
        id
    }

    /// The identity of a connection, while it may be trusted.
    pub fn cached(&self, connection_id: &str, now: u64) -> (r: Option<String>)
        ensures
            opt_text(r) == fresh_id(recall(known_views(self.known@), connection_id@), now),
    {
        let ghost k = known_views(self.known@);
        let mut n: usize = self.known.len();
        assert(k.take(n as int) =~= k);
        while n > 0
            invariant
                n <= self.known@.len(),
                k == known_views(self.known@),
                recall(k, connection_id@) == recall(k.take(n as int), connection_id@),
            decreases n,
        {
            let ghost last = self.known@[n - 1];
            assert(k.take(n as int).last() == (last.0@, (opt_text(last.1.0), last.1.1)));
            assert(k.take(n as int).drop_last() =~= k.take(n - 1));
            if same(&self.known[n - 1].0, connection_id) {
                let at: u64 = self.known[n - 1].1.1;
                let age: u64 = if now >= at {
                    now - at
                } else {
                    0
                };
                return match &self.known[n - 1].1.0 {
                    Some(id) => if age < 300000 {
                        Some(id.clone())
                    } else {
                        None
                    },
                    None => None,
                };
            }
            n -= 1;
        }
        None
    }
}

// ---------------------------------------------------------------------------
// Views
// ---------------------------------------------------------------------------

pub open spec fn names_in(o: Option<Fields>) -> Seq<Seq<char>> {
    match o {
        Some(f) => f.map_values(|p: (Seq<char>, JsonV)| p.0),
        None => Seq::empty(),
    }
}

/// What leaves the process of an entry: of its token, whether it is set and how
/// it starts; of its headers, their names.
pub open spec fn shown_entry(c: ConnV, install_id: Option<Seq<char>>) -> JsonV {
    let token = token_of_entry(c);
    let o = put(no_fields(), "id"@, JsonV::Str(c.id));
    let o = put(o, "kind"@, JsonV::Str(c.kind));
    let o = put(o, "label"@, JsonV::Str(c.label));
    let o = put(o, "tokenSet"@, JsonV::Bool(token.len() > 0));
    let o = put(o, "tokenPreview"@, opt_str(preview_of(token)));
    let o = put(o, "headerNames"@, strs(names_in(c.headers)));
    let o = put_opt(o, "url"@, opt_str_value(c.url));
    let o = put_opt(o, "authMode"@, opt_str_value(c.auth_mode));
    let o = put_opt(o, "org"@, opt_str_value(c.org));
    let o = put_opt(o, "host"@, opt_str_value(c.host));
    let o = put_opt(o, "user"@, opt_str_value(c.user));
    let o = put_opt(o, "port"@, opt_int_value(c.port));
    let o = put_opt(o, "keyPath"@, opt_str_value(c.key_path));
    let o = put_opt(o, "remoteHermesPath"@, opt_str_value(c.remote_hermes_path));
    let o = put_opt(o, "remoteProfile"@, opt_str_value(c.remote_profile));
    JsonV::Obj(put_opt(o, "installId"@, opt_str_value(install_id)))
}

fn set_opt_text(o: &mut Vec<(String, Json)>, k: &str, v: &Option<String>)
    ensures
        fields(final(o)@) == put_opt(fields(old(o)@), k@, opt_str_value(opt_text(*v))),
{
    if let Some(s) = v {
        set_field(o, k, Json::Str(s.clone()));
    }
}

fn header_names(o: &Option<Vec<(String, Json)>>) -> (r: Vec<String>)
    ensures
        texts(r@) == names_in(opt_fields(*o)),
{
    let mut out: Vec<String> = Vec::new();
    if let Some(v) = o {
        let ghost all = names_in(Some(fields(v@)));
        let mut i: usize = 0;
        while i < v.len()
            invariant
                i <= v@.len(),
                all == names_in(Some(fields(v@))),
                texts(out@) == all.take(i as int),
            decreases v@.len() - i,
        {
            let ghost before = texts(out@);
            let name = v[i].0.clone();
            out.push(name);
            assert(texts(out@) =~= before.push(name@));
            assert(all[i as int] == name@);
            assert(all.take(i + 1) =~= all.take(i as int).push(all[i as int]));
            i += 1;
        }
        assert(all.take(i as int) =~= all);
    }
    assert(texts(out@) =~= names_in(opt_fields(*o)));
    out
}

pub fn sanitize_entry(entry: &RegistryConnection, install_id: &Option<String>) -> (r: Json)
    ensures
        r@ == shown_entry(entry@, opt_text(*install_id)),
{
    broadcast use crate::json::group_json_views;

    let token = entry_token(entry);
    let mut o: Vec<(String, Json)> = Vec::new();
    assert(fields(o@) =~= no_fields());
    set_field(&mut o, "id", Json::text(&entry.id));
    set_field(&mut o, "kind", Json::text(&entry.kind));
    set_field(&mut o, "label", Json::text(&entry.label));
    set_field(&mut o, "tokenSet", Json::Bool(!token.as_str().is_empty()));
    set_field(&mut o, "tokenPreview", Json::from_opt(&token_preview(&token)));
    set_field(&mut o, "headerNames", Json::from_texts(&header_names(&entry.headers)));
    set_opt_text(&mut o, "url", &entry.url);
    set_opt_text(&mut o, "authMode", &entry.auth_mode);
    set_opt_text(&mut o, "org", &entry.org);
    set_opt_text(&mut o, "host", &entry.host);
    set_opt_text(&mut o, "user", &entry.user);
    if let Some(p) = entry.port {
        set_field(&mut o, "port", Json::Int(p));
    }
    set_opt_text(&mut o, "keyPath", &entry.key_path);
    set_opt_text(&mut o, "remoteHermesPath", &entry.remote_hermes_path);
    set_opt_text(&mut o, "remoteProfile", &entry.remote_profile);
    set_opt_text(&mut o, "installId", install_id);
    Json::Obj(o)
}

/// Whether two entries differ at most in what stays inside: the tail of the
/// token and the values of the headers.
pub open spec fn alike_outside(a: ConnV, b: ConnV) -> bool {
    &&& (ConnV { token: a.token, headers: a.headers, ..b }) == a
    &&& names_in(a.headers) == names_in(b.headers)
    &&& looks_alike(token_of_entry(a), token_of_entry(b))
}

/// Two entries that differ only in the tail of their token and in the values of
/// their headers look the same from outside.
pub proof fn law_views_hide_secrets(a: ConnV, b: ConnV, install_id: Option<Seq<char>>)
    requires
        alike_outside(a, b),
    ensures
        shown_entry(a, install_id) == shown_entry(b, install_id),
{
    assert(preview_of(token_of_entry(a)) == preview_of(token_of_entry(b)));
}

/// The name of a quarantined entry, when it has one.
pub fn quarantine_reasonable_label(entry: &Json) -> (r: String)
    ensures
        r@ == str_field_or_empty(entry@, "label"@),
{
    entry.get_str_or_empty("label")
}

pub open spec fn shown_quarantined(q: QuarantinedV) -> JsonV {
    JsonV::Obj(
        put(
            put(no_fields(), "reason"@, JsonV::Str(q.reason)),
            "label"@,
            JsonV::Str(str_field_or_empty(q.entry, "label"@)),
        ),
    )
}

fn sanitize_quarantined(q: &QuarantinedEntry) -> (r: Json)
    ensures
        r@ == shown_quarantined(q@),
{
    broadcast use crate::json::group_json_views;

    let mut o: Vec<(String, Json)> = Vec::new();
    assert(fields(o@) =~= no_fields());
    set_field(&mut o, "reason", Json::text(&q.reason));
    set_field(&mut o, "label", Json::Str(quarantine_reasonable_label(&q.entry)));
    Json::Obj(o)
}

pub open spec fn shown_entries(c: Seq<ConnV>, ids: Seq<Option<Seq<char>>>) -> Seq<JsonV> {
    Seq::new(
        c.len(),
        |i: int|
            shown_entry(
                c[i],
                if i < ids.len() {
                    ids[i]
                } else {
                    None
                },
            ),
    )
}

pub open spec fn shown_registry(r: RegistryV, ids: Seq<Option<Seq<char>>>) -> JsonV {
    let o = put(no_fields(), "version"@, JsonV::Int(r.version as i64));
    let o = put(o, "primary"@, JsonV::Str(r.primary));
    let o = put(o, "launchMode"@, JsonV::Str(r.launch_mode));
    let o = put(o, "lastUsed"@, JsonV::Str(r.last_used));
    let o = put(o, "secureTokenStorage"@, JsonV::Bool(false));
    let o = put(o, "connections"@, JsonV::Arr(shown_entries(r.connections, ids)));
    JsonV::Obj(
        put(
            o,
            "quarantined"@,
            JsonV::Arr(
                match r.quarantined {
                    Some(q) => q.map_values(|x: QuarantinedV| shown_quarantined(x)),
                    None => Seq::empty(),
                },
            ),
        ),
    )
}

pub open spec fn opt_texts_view(v: Seq<Option<String>>) -> Seq<Option<Seq<char>>> {
    v.map_values(|o: Option<String>| opt_text(o))
}

/// The registry as the renderer sees it. `install_ids` holds the known identity
/// of each entry, in their order.
pub fn sanitize_registry(registry: &ConnectionRegistry, install_ids: &Vec<Option<String>>) -> (r:
    Json)
    ensures
        r@ == shown_registry(registry@, opt_texts_view(install_ids@)),
{
    broadcast use crate::json::group_json_views;

    let ghost ids = opt_texts_view(install_ids@);
    let mut list: Vec<Json> = Vec::new();
    let ghost all = shown_entries(conns(registry.connections@), ids);
    let mut i: usize = 0;
    while i < registry.connections.len()
        invariant
            i <= registry.connections@.len(),
            ids == opt_texts_view(install_ids@),
            all == shown_entries(conns(registry.connections@), ids),
            items(list@) == all.take(i as int),
        decreases registry.connections@.len() - i,
    {
        let ghost before = items(list@);
        let none: Option<String> = None;
        let id = if i < install_ids.len() {
            &install_ids[i]
        } else {
            &none
        };
        let j = sanitize_entry(&registry.connections[i], id);
        assert(conns(registry.connections@)[i as int] == registry.connections@[i as int]@);
        list.push(j);
        assert(items(list@) =~= before.push(j@));
        assert(all[i as int] == j@);
        assert(all.take(i + 1) =~= all.take(i as int).push(all[i as int]));
        i += 1;
    }
    assert(all.take(i as int) =~= all);
    let mut aside: Vec<Json> = Vec::new();
    assert(items(aside@) =~= Seq::<JsonV>::empty());
    if let Some(q) = &registry.quarantined {
        let ghost qs = quarantined_views(q@).map_values(|x: QuarantinedV| shown_quarantined(x));
        let mut k: usize = 0;
        while k < q.len()
            invariant
                k <= q@.len(),
                qs == quarantined_views(q@).map_values(|x: QuarantinedV| shown_quarantined(x)),
                items(aside@) == qs.take(k as int),
            decreases q@.len() - k,
        {
            let ghost before = items(aside@);
            let j = sanitize_quarantined(&q[k]);
            assert(quarantined_views(q@)[k as int] == q@[k as int]@);
            assert(j@ == qs[k as int]);
            aside.push(j);
            assert(items(aside@) =~= before.push(j@));
            assert(qs.take(k + 1) =~= qs.take(k as int).push(qs[k as int]));
            k += 1;
        }
        assert(qs.take(k as int) =~= qs);
    }
    let mut o: Vec<(String, Json)> = Vec::new();
    assert(fields(o@) =~= no_fields());
    set_field(&mut o, "version", Json::Int(registry.version as i64));
    set_field(&mut o, "primary", Json::text(&registry.primary));
    set_field(&mut o, "launchMode", Json::text(&registry.launch_mode));
    set_field(&mut o, "lastUsed", Json::text(&registry.last_used));
    set_field(&mut o, "secureTokenStorage", Json::Bool(false));
    set_field(&mut o, "connections", Json::Arr(list));
    set_field(&mut o, "quarantined", Json::Arr(aside));
    Json::Obj(o)
}

/// Two registries whose entries differ only in secrets, and whose quarantined
/// entries agree in reason and label, look the same from outside.
pub proof fn law_registry_view_hides_secrets(
    a: RegistryV,
    b: RegistryV,
    ids: Seq<Option<Seq<char>>>,
)
    requires
        (RegistryV { connections: a.connections, quarantined: a.quarantined, ..b }) == a,
        a.connections.len() == b.connections.len(),
        forall|i: int|
            0 <= i < a.connections.len() ==> alike_outside(
                #[trigger] a.connections[i],
                b.connections[i],
            ),
        match (a.quarantined, b.quarantined) {
            (Some(p), Some(q)) => p.len() == q.len() && forall|i: int|
                0 <= i < p.len() ==> (#[trigger] p[i]).reason == q[i].reason && str_field_or_empty(
                    p[i].entry,
                    "label"@,
                ) == str_field_or_empty(q[i].entry, "label"@),
            (None, None) => true,
            _ => false,
        },
    ensures
        shown_registry(a, ids) == shown_registry(b, ids),
{
    let x = shown_entries(a.connections, ids);
    let y = shown_entries(b.connections, ids);
    assert forall|i: int| 0 <= i < x.len() implies x[i] == y[i] by {
        assert(alike_outside(a.connections[i], b.connections[i]));
        law_views_hide_secrets(
            a.connections[i],
            b.connections[i],
            if i < ids.len() {
                ids[i]
            } else {
                None
            },
        );
    }
    assert(x =~= y);
    if let (Some(p), Some(q)) = (a.quarantined, b.quarantined) {
        let f = |v: QuarantinedV| shown_quarantined(v);
        assert(p.map_values(f) =~= q.map_values(f));
    }
}

// ---------------------------------------------------------------------------
// Targets
// ---------------------------------------------------------------------------

pub open spec fn no_ssh() -> Seq<char> {
    "SSH sources are not available in this build yet — the Tauri desktop has no SSH transport."@
}

pub open spec fn no_oauth() -> Seq<char> {
    "OAuth remote gateways are not supported in this build yet."@
}

pub open spec fn lacks_session_token(label: Seq<char>) -> Seq<char> {
    "Connection \""@ + label
        + "\" has no saved session token. Edit the connection and paste one."@
}

pub open spec fn lacks_url(label: Seq<char>) -> Seq<char> {
    "Connection \""@ + label + "\" has no URL."@
}

/// The base address of an entry; empty when it has none.
pub open spec fn entry_base(c: ConnV) -> Seq<char> {
    match c.url {
        Some(u) => trim_end_of(u, Class::One('/')),
        None => Seq::empty(),
    }
}

pub open spec fn entry_auth(c: ConnV) -> Seq<char> {
    match c.auth_mode {
        Some(m) => m,
        None => "token"@,
    }
}

pub fn base_of_entry(c: &RegistryConnection) -> (r: String)
    ensures
        r@ == entry_base(c@),
{
    match &c.url {
        Some(u) => trim_end_char(u, '/'),
        None => {
            let none = String::new();
            assert(none@ =~= Seq::<char>::empty());
            none
        },
    }
}

fn auth_of_entry(c: &RegistryConnection) -> (r: String)
    ensures
        r@ == entry_auth(c@),
{
    match &c.auth_mode {
        Some(m) => m.clone(),
        None => "token".to_string(),
    }
}

fn session_token_error(label: &str) -> (r: String)
    ensures
        r@ == lacks_session_token(label@),
{
    let mut e = "Connection \"".to_string();
    e.append(label);
    e.append("\" has no saved session token. Edit the connection and paste one.");
    e
}

fn url_error(label: &str) -> (r: String)
    ensures
        r@ == lacks_url(label@),
{
    let mut e = "Connection \"".to_string();
    e.append(label);
    e.append("\" has no URL.");
    e
}

/// Where a request for a registered connection goes.
pub struct ApiTarget {
    pub base: String,
    pub token: String,
    pub headers: Option<Vec<(String, Json)>>,
}

#[verifier::ext_equal]
pub struct ApiTargetV {
    pub base: Seq<char>,
    pub token: Seq<char>,
    pub headers: Option<Fields>,
}

impl View for ApiTarget {
    type V = ApiTargetV;

    open spec fn view(&self) -> ApiTargetV {
        ApiTargetV {
            base: self.base@,
            token: self.token@,
            headers: opt_fields(self.headers),
        }
    }
}

/// The target of an entry: its own for a gateway, none for the local one, and a
/// refusal where it cannot be reached.
pub open spec fn target_of_entry(c: ConnV) -> Result<Option<ApiTargetV>, Seq<char>> {
    if c.kind == "remote"@ || c.kind == "cloud"@ {
        if entry_auth(c) == "oauth"@ {
            Err(no_oauth())
        } else if token_of_entry(c).len() == 0 {
            Err(lacks_session_token(c.label))
        } else if entry_base(c).len() == 0 {
            Err(lacks_url(c.label))
        } else {
            Ok(
                Some(
                    ApiTargetV {
                        base: entry_base(c),
                        token: token_of_entry(c),
                        headers: c.headers,
                    },
                ),
            )
        }
    } else if c.kind == "ssh"@ {
        Err(no_ssh())
    } else {
        Ok(None)
    }
}

pub open spec fn target_result(r: Result<Option<ApiTarget>, String>) -> Result<
    Option<ApiTargetV>,
    Seq<char>,
> {
    match r {
        Ok(Some(t)) => Ok(Some(t@)),
        Ok(None) => Ok(None),
        Err(e) => Err(e@),
    }
}

/// Where a request that names a connection goes; `None` means the managed
/// backend, which the local and the empty id stand for.
pub open spec fn api_target_of(r: RegistryV, id: Seq<char>) -> Result<
    Option<ApiTargetV>,
    Seq<char>,
> {
    if names_local(id) {
        Ok(None)
    } else {
        match conn_with_id(r.connections, id) {
            None => Err(no_such_connection(id)),
            Some(c) => target_of_entry(c),
        }
    }
}

pub fn api_target(registry: &ConnectionRegistry, connection_id: &str) -> (r: Result<
    Option<ApiTarget>,
    String,
>)
    ensures
        target_result(r) == api_target_of(registry@, connection_id@),
{
    if is_local_request(connection_id) {
        return Ok(None);
    }
    let c = match find_entry(registry, connection_id) {
        Ok(c) => c,
        Err(e) => {
            return Err(e);
        },
    };
    if same(&c.kind, "remote") || same(&c.kind, "cloud") {
        if same(&auth_of_entry(c), "oauth") {
            return Err("OAuth remote gateways are not supported in this build yet.".to_string());
        }
        let token = entry_token(c);
        if token.as_str().is_empty() {
            return Err(session_token_error(&c.label));
        }
        let base = base_of_entry(c);
        if base.as_str().is_empty() {
            return Err(url_error(&c.label));
        }
        return Ok(Some(ApiTarget { base, token, headers: copy_headers(&c.headers) }));
    }
    if same(&c.kind, "ssh") {
        return Err(
            "SSH sources are not available in this build yet — the Tauri desktop has no SSH transport.".to_string(),
        );
    }
    Ok(None)
}

/// A request is never sent to a gateway without its token, and never to the
/// local backend in place of a gateway or an SSH host.
pub proof fn law_requests_do_not_leak(c: ConnV)
    ensures
        match target_of_entry(c) {
            Ok(Some(t)) => t.token == token_of_entry(c) && t.token.len() > 0 && t.base
                == entry_base(c) && t.base.len() > 0,
            Ok(None) => c.kind != "remote"@ && c.kind != "cloud"@ && c.kind != "ssh"@,
            Err(_) => true,
        },
{
}

// ---------------------------------------------------------------------------
// Descriptors
// ---------------------------------------------------------------------------

pub open spec fn names_local(id: Seq<char>) -> bool {
    id.len() == 0 || id == "local"@
}

/// The connection that a payload names.
pub open spec fn payload_connection(payload: JsonV) -> Seq<char> {
    trimmed(str_field_or_empty(payload, "connectionId"@))
}

pub fn requested_connection(payload: &Json) -> (r: String)
    ensures
        r@ == payload_connection(payload@),
{
    trim(&payload.get_str_or_empty("connectionId"))
}

pub fn is_local_request(id: &str) -> (r: bool)
    ensures
        r == names_local(id@),
{
    id.is_empty() || same(id, "local")
}

/// The descriptor of a gateway.
pub open spec fn remote_descriptor(
    c: ConnV,
    base: Seq<char>,
    token: Seq<char>,
    profile: Option<Seq<char>>,
) -> JsonV {
    let o = put(no_fields(), "baseUrl"@, JsonV::Str(base));
    let o = put(o, "token"@, JsonV::Str(token));
    let o = put(o, "wsUrl"@, JsonV::Str(ws_url_of(base, token)));
    let o = put(o, "mode"@, JsonV::Str("remote"@));
    let o = put(
        o,
        "remoteKind"@,
        JsonV::Str(
            if c.kind == "cloud"@ {
                "cloud"@
            } else {
                "url"@
            },
        ),
    );
    let o = put(o, "remoteHost"@, opt_str(host_label_of(base)));
    let o = put(o, "authMode"@, JsonV::Str(entry_auth(c)));
    let o = put(o, "source"@, JsonV::Str("settings"@));
    let o = put(o, "logs"@, JsonV::Arr(Seq::empty()));
    let o = put(o, "profile"@, opt_str(profile));
    let o = put(o, "connectionId"@, JsonV::Str(c.id));
    let o = put(o, "registryScoped"@, JsonV::Bool(true));
    let o = put(o, "isFullscreen"@, JsonV::Bool(false));
    JsonV::Obj(put(o, "nativeOverlayWidth"@, JsonV::Int(0)))
}

pub open spec fn descriptor_of_entry(c: ConnV, profile: Option<Seq<char>>) -> Result<
    JsonV,
    Seq<char>,
> {
    let base = entry_base(c);
    let token = token_of_entry(c);
    if c.kind == "ssh"@ {
        Err(no_ssh())
    } else if base.len() == 0 {
        Err(lacks_url(c.label))
    } else if entry_auth(c) == "oauth"@ {
        Ok(remote_descriptor(c, base, Seq::empty(), profile))
    } else if token.len() == 0 {
        Err(lacks_session_token(c.label))
    } else {
        Ok(remote_descriptor(c, base, token, profile))
    }
}

pub open spec fn local_descriptor(
    b: crate::commands::BackendV,
    profile: Option<Seq<char>>,
) -> JsonV {
    JsonV::Obj(
        put(
            put(
                connection_fields(local_connection(b, profile)),
                "connectionId"@,
                JsonV::Str("local"@),
            ),
            "registryScoped"@,
            JsonV::Bool(true),
        ),
    )
}

fn build_remote_descriptor(
    c: &RegistryConnection,
    base: &str,
    token: &str,
    profile: &Option<String>,
) -> (r: Json)
    ensures
        r@ == remote_descriptor(c@, base@, token@, opt_text(*profile)),
{
    broadcast use crate::json::group_json_views;

    let mut o: Vec<(String, Json)> = Vec::new();
    assert(fields(o@) =~= no_fields());
    set_field(&mut o, "baseUrl", Json::text(base));
    set_field(&mut o, "token", Json::text(token));
    set_field(&mut o, "wsUrl", Json::Str(entry_ws_url(base, token)));
    set_field(&mut o, "mode", Json::text("remote"));
    let kind = if same(&c.kind, "cloud") {
        Json::text("cloud")
    } else {
        Json::text("url")
    };
    set_field(&mut o, "remoteKind", kind);
    set_field(&mut o, "remoteHost", Json::from_opt(&host_label_from_base_url(base)));
    set_field(&mut o, "authMode", Json::Str(auth_of_entry(c)));
    set_field(&mut o, "source", Json::text("settings"));
    let none: Vec<Json> = Vec::new();
    assert(items(none@) =~= Seq::<JsonV>::empty());
    set_field(&mut o, "logs", Json::Arr(none));
    set_field(&mut o, "profile", Json::from_opt(profile));
    set_field(&mut o, "connectionId", Json::text(&c.id));
    set_field(&mut o, "registryScoped", Json::Bool(true));
    set_field(&mut o, "isFullscreen", Json::Bool(false));
    set_field(&mut o, "nativeOverlayWidth", Json::Int(0));
    Json::Obj(o)
}

/// The descriptor of the connection that a payload names. A source that cannot
/// be dialled is refused; it never falls back to the managed backend.
pub open spec fn descriptor_for(
    payload: JsonV,
    b: crate::commands::BackendV,
    r: RegistryV,
) -> Result<JsonV, Seq<char>> {
    let id = payload_connection(payload);
    let profile = opt_nonblank(str_field(payload, "profile"@));
    if names_local(id) {
        Ok(local_descriptor(b, profile))
    } else {
        match conn_with_id(r.connections, id) {
            None => Err(no_such_connection(id)),
            Some(c) => descriptor_of_entry(c, profile),
        }
    }
}

pub fn get_connection_for(
    payload: &Json,
    backend: &BackendState,
    registry: &ConnectionRegistry,
) -> (r: Result<Json, String>)
    ensures
        json_result(r) == descriptor_for(payload@, backend@, registry@),
{
    broadcast use crate::json::group_json_views;

    let id = requested_connection(payload);
    let profile = match payload.get_str("profile") {
        Some(p) => trim_nonblank(&p),
        None => None,
    };
    if is_local_request(&id) {
        let conn = build_connection(backend, profile);
        let mut o = conn.to_fields();
        set_field(&mut o, "connectionId", Json::text("local"));
        set_field(&mut o, "registryScoped", Json::Bool(true));
        return Ok(Json::Obj(o));
    }
    let c = match find_entry(registry, &id) {
        Ok(c) => c,
        Err(e) => {
            return Err(e);
        },
    };
    if same(&c.kind, "ssh") {
        return Err(
            "SSH sources are not available in this build yet — the Tauri desktop has no SSH transport.".to_string(),
        );
    }
    let base = base_of_entry(c);
    if base.as_str().is_empty() {
        return Err(url_error(&c.label));
    }
    if same(&auth_of_entry(c), "oauth") {
        let none = String::new();
        assert(none@ =~= Seq::<char>::empty());
        return Ok(build_remote_descriptor(c, &base, &none, &profile));
    }
    let token = entry_token(c);
    if token.as_str().is_empty() {
        return Err(session_token_error(&c.label));
    }
    Ok(build_remote_descriptor(c, &base, &token, &profile))
}

pub open spec fn failed_answer(error: Seq<char>) -> JsonV {
    JsonV::Obj(put(put(no_fields(), "ok"@, JsonV::Bool(false)), "error"@, JsonV::Str(error)))
}

fn failed_answer_json(error: &str) -> (r: Json)
    ensures
        r@ == failed_answer(error@),
{
    broadcast use crate::json::group_json_views;

    let mut o: Vec<(String, Json)> = Vec::new();
    assert(fields(o@) =~= no_fields());
    set_field(&mut o, "ok", Json::Bool(false));
    set_field(&mut o, "error", Json::text(error));
    Json::Obj(o)
}

pub open spec fn ws_of_entry(c: ConnV) -> Result<JsonV, Seq<char>> {
    let base = entry_base(c);
    let token = token_of_entry(c);
    if c.kind == "ssh"@ {
        Err(no_ssh())
    } else if entry_auth(c) == "oauth"@ {
        Ok(failed_answer(no_oauth()))
    } else if base.len() == 0 || token.len() == 0 {
        Ok(
            failed_answer(
                "Connection \""@ + c.label + "\" has no usable URL + session token."@,
            ),
        )
    } else {
        Ok(ws_answer(ws_url_of(base, token), base))
    }
}

/// The gateway address of the connection that a payload names.
pub open spec fn ws_url_for(payload: JsonV, b: crate::commands::BackendV, r: RegistryV) -> Result<
    JsonV,
    Seq<char>,
> {
    let id = payload_connection(payload);
    if names_local(id) {
        let l = local_connection(b, None);
        Ok(ws_answer(l.ws_url, l.base_url))
    } else {
        match conn_with_id(r.connections, id) {
            None => Err(no_such_connection(id)),
            Some(c) => ws_of_entry(c),
        }
    }
}

pub fn get_gateway_ws_url_for(
    payload: &Json,
    backend: &BackendState,
    registry: &ConnectionRegistry,
) -> (r: Result<Json, String>)
    ensures
        json_result(r) == ws_url_for(payload@, backend@, registry@),
{
    let id = requested_connection(payload);
    if is_local_request(&id) {
        let conn = build_connection(backend, None);
        return Ok(ws_answer_json(&conn.ws_url, &conn.base_url));
    }
    let c = match find_entry(registry, &id) {
        Ok(c) => c,
        Err(e) => {
            return Err(e);
        },
    };
    if same(&c.kind, "ssh") {
        return Err(
            "SSH sources are not available in this build yet — the Tauri desktop has no SSH transport.".to_string(),
        );
    }
    if same(&auth_of_entry(c), "oauth") {
        return Ok(
            failed_answer_json("OAuth remote gateways are not supported in this build yet."),
        );
    }
    let base = base_of_entry(c);
    let token = entry_token(c);
    if base.as_str().is_empty() || token.as_str().is_empty() {
        let mut e = "Connection \"".to_string();
        e.append(&c.label);
        e.append("\" has no usable URL + session token.");
        return Ok(failed_answer_json(&e));
    }
    Ok(ws_answer_json(&entry_ws_url(&base, &token), &base))
}

// ---------------------------------------------------------------------------
// Testing a connection
// ---------------------------------------------------------------------------

/// How long a status probe may take.
pub const STATUS_TIMEOUT_MS: u64 = 8000;

/// How long a request for an update may take.
pub const UPDATE_TIMEOUT_MS: u64 = 15000;

/// What testing a connection comes to.
pub enum TestStep {
    /// It can be answered without asking.
    Answer(Json),
    /// The managed backend has to be asked, once it is ready.
    AskLocal,
    /// A gateway has to be asked at this base address.
    AskRemote(ApiTarget),
}

pub enum TestStepV {
    Answer(JsonV),
    AskLocal,
    AskRemote(ApiTargetV),
}

impl View for TestStep {
    type V = TestStepV;

    open spec fn view(&self) -> TestStepV {
        match self {
            TestStep::Answer(j) => TestStepV::Answer(j@),
            TestStep::AskLocal => TestStepV::AskLocal,
            TestStep::AskRemote(t) => TestStepV::AskRemote(t@),
        }
    }
}

pub open spec fn unreachable_answer(error: Seq<char>) -> JsonV {
    JsonV::Obj(
        put(
            put(put(no_fields(), "ok"@, JsonV::Bool(false)), "reachable"@, JsonV::Bool(false)),
            "error"@,
            JsonV::Str(error),
        ),
    )
}

pub open spec fn ssh_test_answer() -> JsonV {
    let o = put(no_fields(), "ok"@, JsonV::Bool(false));
    let o = put(o, "reachable"@, JsonV::Bool(false));
    let o = put(o, "sshError"@, JsonV::Str("unsupported-platform"@));
    JsonV::Obj(
        put(o, "error"@, JsonV::Str("SSH transport is not available in this build yet."@)),
    )
}

pub open spec fn test_of_entry(c: ConnV) -> TestStepV {
    if c.kind == "ssh"@ {
        TestStepV::Answer(ssh_test_answer())
    } else if c.kind == "local"@ {
        TestStepV::AskLocal
    } else if entry_auth(c) == "oauth"@ {
        TestStepV::Answer(
            unreachable_answer(
                "OAuth remote gateways are not supported in this build yet; test a token-auth connection instead."@,
            ),
        )
    } else if token_of_entry(c).len() == 0 {
        TestStepV::Answer(
            unreachable_answer(
                "This connection has no saved session token. Edit the connection and paste one."@,
            ),
        )
    } else {
        TestStepV::AskRemote(
            ApiTargetV { base: entry_base(c), token: token_of_entry(c), headers: c.headers },
        )
    }
}

fn unreachable_json(error: &str) -> (r: Json)
    ensures
        r@ == unreachable_answer(error@),
{
    broadcast use crate::json::group_json_views;

    let mut o: Vec<(String, Json)> = Vec::new();
    assert(fields(o@) =~= no_fields());
    set_field(&mut o, "ok", Json::Bool(false));
    set_field(&mut o, "reachable", Json::Bool(false));
    set_field(&mut o, "error", Json::text(error));
    Json::Obj(o)
}

/// How a connection is tested.
pub open spec fn test_step_for(r: RegistryV, id: Seq<char>) -> Result<TestStepV, Seq<char>> {
    match conn_with_id(r.connections, trimmed(id)) {
        None => Err(no_such_connection(trimmed(id))),
        Some(c) => Ok(test_of_entry(c)),
    }
}

pub fn connections_test(registry: &ConnectionRegistry, id: &str) -> (r: Result<TestStep, String>)
    ensures
        test_step_for(registry@, id@) == (match r {
            Ok(s) => Ok(s@),
            Err(e) => Err(e@),
        }),
{
    broadcast use crate::json::group_json_views;

    let key = trim(id);
    let c = match find_entry(registry, &key) {
        Ok(c) => c,
        Err(e) => {
            return Err(e);
        },
    };
    if same(&c.kind, "ssh") {
        let mut o: Vec<(String, Json)> = Vec::new();
        assert(fields(o@) =~= no_fields());
        set_field(&mut o, "ok", Json::Bool(false));
        set_field(&mut o, "reachable", Json::Bool(false));
        set_field(&mut o, "sshError", Json::text("unsupported-platform"));
        set_field(
            &mut o,
            "error",
            Json::text("SSH transport is not available in this build yet."),
        );
        return Ok(TestStep::Answer(Json::Obj(o)));
    }
    if same(&c.kind, "local") {
        return Ok(TestStep::AskLocal);
    }
    if same(&auth_of_entry(c), "oauth") {
        return Ok(
            TestStep::Answer(
                unreachable_json(
                    "OAuth remote gateways are not supported in this build yet; test a token-auth connection instead.",
                ),
            ),
        );
    }
    let token = entry_token(c);
    if token.as_str().is_empty() {
        return Ok(
            TestStep::Answer(
                unreachable_json(
                    "This connection has no saved session token. Edit the connection and paste one.",
                ),
            ),
        );
    }
    Ok(
        TestStep::AskRemote(
            ApiTarget { base: base_of_entry(c), token, headers: copy_headers(&c.headers) },
        ),
    )
}

/// The address of a backend's status.
pub open spec fn status_address(base: Seq<char>) -> Seq<char> {
    base + "/api/status"@
}

pub fn status_url(base: &str) -> (r: String)
    ensures
        r@ == status_address(base@),
{
    let mut out = base.to_string();
    out.append("/api/status");
    out
}

pub open spec fn test_answer(base: Seq<char>, reply: Result<JsonV, Seq<char>>) -> JsonV {
    match reply {
        Ok(status) => {
            let o = put(no_fields(), "ok"@, JsonV::Bool(true));
            let o = put(o, "reachable"@, JsonV::Bool(true));
            let o = put(o, "baseUrl"@, JsonV::Str(base));
            JsonV::Obj(put(o, "version"@, opt_str(str_field(status, "version"@))))
        },
        Err(e) => {
            let o = put(no_fields(), "ok"@, JsonV::Bool(false));
            let o = put(o, "reachable"@, JsonV::Bool(false));
            let o = put(o, "baseUrl"@, JsonV::Str(base));
            JsonV::Obj(put(o, "error"@, JsonV::Str(e)))
        },
    }
}

/// The answer to a test, out of what the backend replied.
pub fn test_outcome(base: &str, reply: &Result<Json, String>) -> (r: Json)
    ensures
        r@ == test_answer(base@, json_result(*reply)),
{
    broadcast use crate::json::group_json_views;

    let mut o: Vec<(String, Json)> = Vec::new();
    assert(fields(o@) =~= no_fields());
    match reply {
        Ok(status) => {
            set_field(&mut o, "ok", Json::Bool(true));
            set_field(&mut o, "reachable", Json::Bool(true));
            set_field(&mut o, "baseUrl", Json::text(base));
            set_field(&mut o, "version", Json::from_opt(&status.get_str("version")));
        },
        Err(e) => {
            set_field(&mut o, "ok", Json::Bool(false));
            set_field(&mut o, "reachable", Json::Bool(false));
            set_field(&mut o, "baseUrl", Json::text(base));
            set_field(&mut o, "error", Json::text(e));
        },
    }
    Json::Obj(o)
}

// ---------------------------------------------------------------------------
// Updates
// ---------------------------------------------------------------------------

/// The refusal of a managed update.
pub open spec fn refused_update(key: Seq<char>, correlation_id: Seq<char>) -> JsonV {
    let o = put(no_fields(), "connectionId"@, JsonV::Str(key));
    let o = put(o, "correlationId"@, JsonV::Str(correlation_id));
    let o = put(o, "ok"@, JsonV::Bool(false));
    let o = put(o, "updateOk"@, JsonV::Bool(false));
    let o = put(o, "restoreOk"@, JsonV::Bool(false));
    let o = put(o, "outcome"@, JsonV::Str("refused"@));
    let o = put(o, "exitCode"@, JsonV::Null);
    let o = put(o, "receipt"@, JsonV::Null);
    let o = put(o, "scopes"@, JsonV::Arr(Seq::empty()));
    let o = put(
        o,
        "error"@,
        JsonV::Str(
            "SSH update lifecycle is not available in this build yet — the Tauri desktop has no SSH transport."@,
        ),
    );
    JsonV::Obj(
        put(
            o,
            "message"@,
            JsonV::Str("SSH update lifecycle is not available in this build yet."@),
        ),
    )
}

pub fn refuse_update(key: &str, correlation_id: &str) -> (r: Json)
    ensures
        r@ == refused_update(key@, correlation_id@),
{
    broadcast use crate::json::group_json_views;

    let mut o: Vec<(String, Json)> = Vec::new();
    assert(fields(o@) =~= no_fields());
    set_field(&mut o, "connectionId", Json::text(key));
    set_field(&mut o, "correlationId", Json::text(correlation_id));
    set_field(&mut o, "ok", Json::Bool(false));
    set_field(&mut o, "updateOk", Json::Bool(false));
    set_field(&mut o, "restoreOk", Json::Bool(false));
    set_field(&mut o, "outcome", Json::text("refused"));
    set_field(&mut o, "exitCode", Json::Null);
    set_field(&mut o, "receipt", Json::Null);
    let none: Vec<Json> = Vec::new();
    assert(items(none@) =~= Seq::<JsonV>::empty());
    set_field(&mut o, "scopes", Json::Arr(none));
    set_field(
        &mut o,
        "error",
        Json::text(
            "SSH update lifecycle is not available in this build yet — the Tauri desktop has no SSH transport.",
        ),
    );
    set_field(
        &mut o,
        "message",
        Json::text("SSH update lifecycle is not available in this build yet."),
    );
    Json::Obj(o)
}

/// Refuses the managed update of a connection that is registered. The
/// correlation id is thirty-two hexadecimal digits of random bytes.
pub fn connections_update_managed(registry: &ConnectionRegistry, id: &str) -> (r: Result<
    Json,
    String,
>)
    ensures
        match conn_with_id(registry@.connections, trimmed(id@)) {
            None => r is Err && r->Err_0@ == no_such_connection(trimmed(id@)),
            Some(_) => r is Ok && exists|b: Seq<u8>|
                b.len() == 16 && r->Ok_0@ == refused_update(trimmed(id@), #[trigger] hex_of(b)),
        },
{
    let key = trim(id);
    if let Err(e) = find_entry(registry, &key) {
        return Err(e);
    }
    let b = random_bytes(16);
    let correlation = hex(&b);
    Ok(refuse_update(&key, &correlation))
}

pub open spec fn strings_in(v: Seq<JsonV>) -> Seq<Seq<char>>
    decreases v.len(),
{
    if v.len() == 0 {
        Seq::empty()
    } else {
        match v.last() {
            JsonV::Str(s) => strings_in(v.drop_last()).push(s),
            _ => strings_in(v.drop_last()),
        }
    }
}

/// The ids that an update leaves out.
pub open spec fn excluded_ids(options: Option<JsonV>) -> Seq<Seq<char>> {
    match options {
        Some(o) => match field(o, "excludeIds"@) {
            Some(JsonV::Arr(v)) => strings_in(v),
            _ => Seq::empty(),
        },
        None => Seq::empty(),
    }
}

pub fn update_exclusions(options: &Option<Json>) -> (r: Vec<String>)
    ensures
        texts(r@) == excluded_ids(opt_json(*options)),
{
    broadcast use crate::json::group_json_views;

    let mut out: Vec<String> = Vec::new();
    assert(texts(out@) =~= Seq::<Seq<char>>::empty());
    if let Some(o) = options {
        if let Some(Json::Arr(v)) = o.get("excludeIds") {
            let ghost all = items(v@);
            assert(all.take(0) =~= Seq::<JsonV>::empty());
            let mut i: usize = 0;
            while i < v.len()
                invariant
                    i <= v@.len(),
                    all == items(v@),
                    texts(out@) == strings_in(all.take(i as int)),
                decreases v@.len() - i,
            {
                assert(all.take(i + 1).drop_last() =~= all.take(i as int));
                assert(all.take(i + 1).last() == v@[i as int]@);
                if let Json::Str(s) = &v[i] {
                    let ghost before = texts(out@);
                    let id = s.clone();
                    out.push(id);
                    assert(texts(out@) =~= before.push(id@));
                }
                i += 1;
            }
            assert(all.take(i as int) =~= all);
        }
    }
    out
}

/// The request that an update of an entry makes, when it makes one.
pub open spec fn update_request(c: ConnV) -> Option<ApiTargetV> {
    if c.kind == "cloud"@ || c.kind == "ssh"@ || c.kind == "local"@ || entry_auth(c) == "oauth"@
        || token_of_entry(c).len() == 0 || c.url is None {
        None
    } else {
        Some(
            ApiTargetV {
                base: entry_base(c) + "/api/hermes/update"@,
                token: token_of_entry(c),
                headers: c.headers,
            },
        )
    }
}

pub open spec fn opt_target(o: Option<ApiTarget>) -> Option<ApiTargetV> {
    match o {
        Some(t) => Some(t@),
        None => None,
    }
}

/// Where the update of an entry is asked for.
pub fn plan_update(c: &RegistryConnection) -> (r: Option<ApiTarget>)
    ensures
        opt_target(r) == update_request(c@),
{
    if same(&c.kind, "cloud") || same(&c.kind, "ssh") || same(&c.kind, "local") {
        return None;
    }
    if same(&auth_of_entry(c), "oauth") {
        return None;
    }
    let token = entry_token(c);
    if token.as_str().is_empty() || c.url.is_none() {
        return None;
    }
    let mut base = base_of_entry(c);
    base.append("/api/hermes/update");
    Some(ApiTarget { base, token, headers: copy_headers(&c.headers) })
}

/// The start of every row.
pub open spec fn row_start(c: ConnV) -> Fields {
    let o = put(no_fields(), "connectionId"@, JsonV::Str(c.id));
    let o = put(o, "label"@, JsonV::Str(c.label));
    put(o, "kind"@, JsonV::Str(c.kind))
}

pub open spec fn or_value(o: Option<JsonV>, fallback: JsonV) -> JsonV {
    match o {
        Some(j) => j,
        None => fallback,
    }
}

/// The row of an entry. `reply` is what the gateway said, when it was asked.
pub open spec fn update_row_of(c: ConnV, reply: Option<Result<JsonV, Seq<char>>>) -> JsonV {
    let o = row_start(c);
    let failed = put(o, "ok"@, JsonV::Bool(false));
    if c.kind == "cloud"@ {
        JsonV::Obj(
            put(
                put(failed, "skipped"@, JsonV::Bool(true)),
                "reason"@,
                JsonV::Str("cloud-managed"@),
            ),
        )
    } else if c.kind == "ssh"@ {
        JsonV::Obj(
            put(
                failed,
                "error"@,
                JsonV::Str("SSH update lifecycle is not available in this build yet."@),
            ),
        )
    } else if c.kind == "local"@ {
        let o = put(failed, "skipped"@, JsonV::Bool(true));
        let o = put(o, "reason"@, JsonV::Str("installer-managed"@));
        JsonV::Obj(
            put(
                o,
                "detail"@,
                JsonV::Str(
                    "This desktop build updates its bundled runtime through its installer."@,
                ),
            ),
        )
    } else if entry_auth(c) == "oauth"@ {
        JsonV::Obj(put(failed, "error"@, JsonV::Str(no_oauth())))
    } else {
        match reply {
            None => JsonV::Obj(
                put(
                    failed,
                    "error"@,
                    JsonV::Str(
                        "This connection has no saved session token. Edit the connection and paste one."@,
                    ),
                ),
            ),
            Some(Err(e)) => JsonV::Obj(put(failed, "error"@, JsonV::Str(e))),
            Some(Ok(body)) => if field(body, "ok"@) == Some(JsonV::Bool(false)) {
                let f = put(failed, "skipped"@, JsonV::Bool(true));
                let f = put(
                    f,
                    "reason"@,
                    or_value(field(body, "error"@), JsonV::Str("backend-refused"@)),
                );
                JsonV::Obj(put_opt(f, "detail"@, field(body, "message"@)))
            } else {
                JsonV::Obj(
                    put(
                        put(o, "ok"@, JsonV::Bool(true)),
                        "detail"@,
                        or_value(field(body, "message"@), JsonV::Str("update started"@)),
                    ),
                )
            },
        }
    }
}

pub open spec fn opt_reply(o: Option<Result<Json, String>>) -> Option<Result<JsonV, Seq<char>>> {
    match o {
        Some(r) => Some(json_result(r)),
        None => None,
    }
}

fn is_false(j: Option<&Json>) -> (r: bool)
    ensures
        r == (match j {
            Some(x) => x@ == JsonV::Bool(false),
            None => false,
        }),
{
    match j {
        Some(Json::Bool(b)) => !*b,
        _ => false,
    }
}

/// The row of an entry in the answer to an update of all.
pub fn update_row(c: &RegistryConnection, reply: &Option<Result<Json, String>>) -> (r: Json)
    ensures
        r@ == update_row_of(c@, opt_reply(*reply)),
{
    broadcast use crate::json::group_json_views;

    let mut o: Vec<(String, Json)> = Vec::new();
    assert(fields(o@) =~= no_fields());
    set_field(&mut o, "connectionId", Json::text(&c.id));
    set_field(&mut o, "label", Json::text(&c.label));
    set_field(&mut o, "kind", Json::text(&c.kind));
    if same(&c.kind, "cloud") {
        set_field(&mut o, "ok", Json::Bool(false));
        set_field(&mut o, "skipped", Json::Bool(true));
        set_field(&mut o, "reason", Json::text("cloud-managed"));
        return Json::Obj(o);
    }
    if same(&c.kind, "ssh") {
        set_field(&mut o, "ok", Json::Bool(false));
        set_field(
            &mut o,
            "error",
            Json::text("SSH update lifecycle is not available in this build yet."),
        );
        return Json::Obj(o);
    }
    if same(&c.kind, "local") {
        set_field(&mut o, "ok", Json::Bool(false));
        set_field(&mut o, "skipped", Json::Bool(true));
        set_field(&mut o, "reason", Json::text("installer-managed"));
        set_field(
            &mut o,
            "detail",
            Json::text("This desktop build updates its bundled runtime through its installer."),
        );
        return Json::Obj(o);
    }
    if same(&auth_of_entry(c), "oauth") {
        set_field(&mut o, "ok", Json::Bool(false));
        set_field(
            &mut o,
            "error",
            Json::text("OAuth remote gateways are not supported in this build yet."),
        );
        return Json::Obj(o);
    }
    match reply {
        None => {
            set_field(&mut o, "ok", Json::Bool(false));
            set_field(
                &mut o,
                "error",
                Json::text(
                    "This connection has no saved session token. Edit the connection and paste one.",
                ),
            );
        },
        Some(Err(e)) => {
            set_field(&mut o, "ok", Json::Bool(false));
            set_field(&mut o, "error", Json::text(e));
        },
        Some(Ok(body)) => {
            if is_false(body.get("ok")) {
                set_field(&mut o, "ok", Json::Bool(false));
                set_field(&mut o, "skipped", Json::Bool(true));
                let reason = match body.get("error") {
                    Some(j) => j.dup(),
                    None => Json::text("backend-refused"),
                };
                set_field(&mut o, "reason", reason);
                if let Some(detail) = body.get("message") {
                    set_field(&mut o, "detail", detail.dup());
                }
            } else {
                set_field(&mut o, "ok", Json::Bool(true));
                let detail = match body.get("message") {
                    Some(j) => j.dup(),
                    None => Json::text("update started"),
                };
                set_field(&mut o, "detail", detail);
            }
        },
    }
    Json::Obj(o)
}

/// Whether an update of all looks at an entry.
pub fn update_covers(c: &RegistryConnection, exclude: &Vec<String>) -> (r: bool)
    ensures
        r == !texts(exclude@).contains(c@.id),
{
    !list_has(exclude, &c.id)
}

/// The rows of an update of all: one for each entry that is not excluded, in
/// their order.
pub open spec fn update_rows(
    c: Seq<ConnV>,
    exclude: Seq<Seq<char>>,
    replies: Seq<Option<Result<JsonV, Seq<char>>>>,
) -> Seq<JsonV>
    decreases c.len(),
{
    if c.len() == 0 || replies.len() < c.len() {
        Seq::empty()
    } else {
        let before = update_rows(c.drop_last(), exclude, replies);
        if exclude.contains(c.last().id) {
            before
        } else {
            before.push(update_row_of(c.last(), replies[c.len() - 1]))
        }
    }
}

pub open spec fn reply_views(v: Seq<Option<Result<Json, String>>>) -> Seq<
    Option<Result<JsonV, Seq<char>>>,
> {
    v.map_values(|o: Option<Result<Json, String>>| opt_reply(o))
}

/// The answer to an update of all.
pub open spec fn update_all_of(
    r: RegistryV,
    options: Option<JsonV>,
    replies: Seq<Option<Result<JsonV, Seq<char>>>>,
) -> JsonV {
    JsonV::Obj(
        put(
            put(no_fields(), "ok"@, JsonV::Bool(true)),
            "results"@,
            JsonV::Arr(update_rows(r.connections, excluded_ids(options), replies)),
        ),
    )
}

/// The answer to an update of all. `replies` holds, for each entry in turn, what
/// its gateway said to the request of `plan_update`, when it made one.
pub fn connections_update_all(
    registry: &ConnectionRegistry,
    options: &Option<Json>,
    replies: &Vec<Option<Result<Json, String>>>,
) -> (r: Json)
    requires
        replies@.len() == registry@.connections.len(),
    ensures
        r@ == update_all_of(registry@, opt_json(*options), reply_views(replies@)),
{
    let exclude = update_exclusions(options);
    let ghost all = conns(registry.connections@);
    let ghost said = reply_views(replies@);
    let mut rows: Vec<Json> = Vec::new();
    assert(items(rows@) =~= Seq::<JsonV>::empty());
    let mut i: usize = 0;
    while i < registry.connections.len()
        invariant
            i <= registry.connections@.len(),
            replies@.len() == registry.connections@.len(),
            all == conns(registry.connections@),
            said == reply_views(replies@),
            items(rows@) == update_rows(all.take(i as int), texts(exclude@), said),
        decreases registry.connections@.len() - i,
    {
        assert(all.take(i + 1).drop_last() =~= all.take(i as int));
        assert(all.take(i + 1).last() == registry.connections@[i as int]@);
        assert(said[i as int] == opt_reply(replies@[i as int]));
        if update_covers(&registry.connections[i], &exclude) {
            let ghost before = items(rows@);
            let row = update_row(&registry.connections[i], &replies[i]);
            rows.push(row);
            assert(items(rows@) =~= before.push(row@));
        }
        i += 1;
    }
    assert(all.take(i as int) =~= all);
    update_answer(rows)
}

/// The answer to an update of all, out of its rows.
pub open spec fn rows_answer(rows: Seq<JsonV>) -> JsonV {
    JsonV::Obj(
        put(put(no_fields(), "ok"@, JsonV::Bool(true)), "results"@, JsonV::Arr(rows)),
    )
}

pub fn update_answer(rows: Vec<Json>) -> (r: Json)
    ensures
        r@ == rows_answer(items(rows@)),
{
    broadcast use crate::json::group_json_views;

    let mut o: Vec<(String, Json)> = Vec::new();
    assert(fields(o@) =~= no_fields());
    set_field(&mut o, "ok", Json::Bool(true));
    set_field(&mut o, "results", Json::Arr(rows));
    Json::Obj(o)
}

// ---------------------------------------------------------------------------
// Answers of the editing commands
// ---------------------------------------------------------------------------

/// The answer to a change of the registry.
pub open spec fn changed_answer(shown: JsonV) -> JsonV {
    JsonV::Obj(put(put(no_fields(), "ok"@, JsonV::Bool(true)), "registry"@, shown))
}

pub fn registry_answer(shown: Json) -> (r: Json)
    ensures
        r@ == changed_answer(shown@),
{
    broadcast use crate::json::group_json_views;

    let mut o: Vec<(String, Json)> = Vec::new();
    assert(fields(o@) =~= no_fields());
    set_field(&mut o, "ok", Json::Bool(true));
    set_field(&mut o, "registry", shown);
    Json::Obj(o)
}

/// The answer to a save.
pub open spec fn saved_answer(connection: JsonV, registry: JsonV) -> JsonV {
    JsonV::Obj(
        put(
            put(put(no_fields(), "ok"@, JsonV::Bool(true)), "connection"@, connection),
            "registry"@,
            registry,
        ),
    )
}

pub fn save_answer(connection: Json, registry: Json) -> (r: Json)
    ensures
        r@ == saved_answer(connection@, registry@),
{
    broadcast use crate::json::group_json_views;

    let mut o: Vec<(String, Json)> = Vec::new();
    assert(fields(o@) =~= no_fields());
    set_field(&mut o, "ok", Json::Bool(true));
    set_field(&mut o, "connection", connection);
    set_field(&mut o, "registry", registry);
    Json::Obj(o)
}

/// The event that tells the windows of a change.
pub open spec fn told_change(connection_id: Seq<char>, reason: Seq<char>) -> JsonV {
    JsonV::Obj(
        put(
            put(no_fields(), "connectionId"@, JsonV::Str(connection_id)),
            "reason"@,
            JsonV::Str(reason),
        ),
    )
}

pub fn change_event(connection_id: &str, reason: &str) -> (r: Json)
    ensures
        r@ == told_change(connection_id@, reason@),
{
    broadcast use crate::json::group_json_views;

    let mut o: Vec<(String, Json)> = Vec::new();
    assert(fields(o@) =~= no_fields());
    set_field(&mut o, "connectionId", Json::text(connection_id));
    set_field(&mut o, "reason", Json::text(reason));
    Json::Obj(o)
}

} // verus!
