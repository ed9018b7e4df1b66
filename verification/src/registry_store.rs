//! Writing a registry as JSON, in the shape it is read back from.

use crate::json::{
    dup_fields, field, fields, items, lemma_lookup_put, lookup, no_fields, put, set_field,
    str_field, str_field_or_empty, Fields, Json, JsonV,
};
use crate::registry::{
    auth_mode_of, bare_conn, conns, has_id, ids_of, label_base, labels_of, nonblank,
    quarantined_views, ssh_fields_of, unique_label_of, ConnV, ConnectionRegistry, QuarantinedEntry,
    QuarantinedV, RegistryConnection, RegistryV, SshV,
};
use crate::registry_load::{
    carried, entry_body, entry_id, entry_label, has_local, known_kind, lemma_kinds_differ, list_of,
    lists_local, load_items, loaded, loaded_headers, normalized, port_of, read_entry, ssh_of,
    stored_headers, with_ssh, EntryRead, LoadV,
};
use crate::text::{lemma_trim_idempotent, opt_text, trimmed, Class};
use vstd::prelude::*;

verus! {

// ---------------------------------------------------------------------------
// The shape
// ---------------------------------------------------------------------------

/// The field set when there is a value for it.
pub open spec fn put_opt(o: Fields, k: Seq<char>, v: Option<JsonV>) -> Fields {
    match v {
        Some(j) => put(o, k, j),
        None => o,
    }
}

pub open spec fn opt_str_value(o: Option<Seq<char>>) -> Option<JsonV> {
    match o {
        Some(s) => Some(JsonV::Str(s)),
        None => None,
    }
}

pub open spec fn opt_int_value(o: Option<i64>) -> Option<JsonV> {
    match o {
        Some(n) => Some(JsonV::Int(n)),
        None => None,
    }
}

pub open spec fn opt_obj_value(o: Option<Fields>) -> Option<JsonV> {
    match o {
        Some(f) => Some(JsonV::Obj(f)),
        None => None,
    }
}

/// The fields of one entry; what it does not have is left out.
pub open spec fn conn_fields(c: ConnV) -> Fields {
    let o = put(no_fields(), "id"@, JsonV::Str(c.id));
    let o = put(o, "kind"@, JsonV::Str(c.kind));
    let o = put(o, "label"@, JsonV::Str(c.label));
    let o = put_opt(o, "url"@, opt_str_value(c.url));
    let o = put_opt(o, "authMode"@, opt_str_value(c.auth_mode));
    let o = put_opt(o, "token"@, c.token);
    let o = put_opt(o, "headers"@, opt_obj_value(c.headers));
    let o = put_opt(o, "org"@, opt_str_value(c.org));
    let o = put_opt(o, "host"@, opt_str_value(c.host));
    let o = put_opt(o, "user"@, opt_str_value(c.user));
    let o = put_opt(o, "port"@, opt_int_value(c.port));
    let o = put_opt(o, "keyPath"@, opt_str_value(c.key_path));
    let o = put_opt(o, "remoteHermesPath"@, opt_str_value(c.remote_hermes_path));
    put_opt(o, "remoteProfile"@, opt_str_value(c.remote_profile))
}

pub open spec fn conn_json(c: ConnV) -> JsonV {
    JsonV::Obj(conn_fields(c))
}

pub open spec fn quarantined_json(q: QuarantinedV) -> JsonV {
    JsonV::Obj(put(put(no_fields(), "reason"@, JsonV::Str(q.reason)), "entry"@, q.entry))
}

pub open spec fn conn_list(c: Seq<ConnV>) -> Seq<JsonV> {
    c.map_values(|x: ConnV| conn_json(x))
}

pub open spec fn quarantined_list(q: Seq<QuarantinedV>) -> Seq<JsonV> {
    q.map_values(|x: QuarantinedV| quarantined_json(x))
}

pub open spec fn registry_fields(r: RegistryV) -> Fields {
    let o = put(no_fields(), "version"@, JsonV::Int(r.version as i64));
    let o = put(o, "primary"@, JsonV::Str(r.primary));
    let o = put(o, "launchMode"@, JsonV::Str(r.launch_mode));
    let o = put(o, "lastUsed"@, JsonV::Str(r.last_used));
    let o = put(o, "connections"@, JsonV::Arr(conn_list(r.connections)));
    put_opt(
        o,
        "quarantined"@,
        match r.quarantined {
            Some(q) => Some(JsonV::Arr(quarantined_list(q))),
            None => None,
        },
    )
}

pub open spec fn registry_json(r: RegistryV) -> JsonV {
    JsonV::Obj(registry_fields(r))
}

fn set_opt(o: &mut Vec<(String, Json)>, k: &str, v: Option<Json>)
    ensures
        fields(final(o)@) == put_opt(fields(old(o)@), k@, crate::registry::opt_json(v)),
{
    match v {
        Some(j) => set_field(o, k, j),
        None => {},
    }
}

fn str_value(o: &Option<String>) -> (r: Option<Json>)
    ensures
        crate::registry::opt_json(r) == opt_str_value(opt_text(*o)),
{
    match o {
        Some(s) => Some(Json::Str(s.clone())),
        None => None,
    }
}

impl RegistryConnection {
    pub fn to_json(&self) -> (r: Json)
        ensures
            r@ == conn_json(self@),
    {
        broadcast use crate::json::group_json_views;

        let mut o: Vec<(String, Json)> = Vec::new();
        assert(fields(o@) =~= no_fields());
        set_field(&mut o, "id", Json::text(&self.id));
        set_field(&mut o, "kind", Json::text(&self.kind));
        set_field(&mut o, "label", Json::text(&self.label));
        set_opt(&mut o, "url", str_value(&self.url));
        set_opt(&mut o, "authMode", str_value(&self.auth_mode));
        set_opt(&mut o, "token", crate::registry::copy_json(&self.token));
        let headers = match &self.headers {
            Some(h) => Some(Json::Obj(dup_fields(h))),
            None => None,
        };
        set_opt(&mut o, "headers", headers);
        set_opt(&mut o, "org", str_value(&self.org));
        set_opt(&mut o, "host", str_value(&self.host));
        set_opt(&mut o, "user", str_value(&self.user));
        let port = match self.port {
            Some(p) => Some(Json::Int(p)),
            None => None,
        };
        set_opt(&mut o, "port", port);
        set_opt(&mut o, "keyPath", str_value(&self.key_path));
        set_opt(&mut o, "remoteHermesPath", str_value(&self.remote_hermes_path));
        set_opt(&mut o, "remoteProfile", str_value(&self.remote_profile));
        Json::Obj(o)
    }
}

impl QuarantinedEntry {
    pub fn to_json(&self) -> (r: Json)
        ensures
            r@ == quarantined_json(self@),
    {
        broadcast use crate::json::group_json_views;

        let mut o: Vec<(String, Json)> = Vec::new();
        assert(fields(o@) =~= no_fields());
        set_field(&mut o, "reason", Json::text(&self.reason));
        set_field(&mut o, "entry", self.entry.dup());
        Json::Obj(o)
    }
}

impl ConnectionRegistry {
    /// The registry as the file holds it.
    pub fn to_json(&self) -> (r: Json)
        ensures
            r@ == registry_json(self@),
    {
        broadcast use crate::json::group_json_views;

        let mut list: Vec<Json> = Vec::new();
        let ghost all = conn_list(conns(self.connections@));
        let mut i: usize = 0;
        while i < self.connections.len()
            invariant
                i <= self.connections@.len(),
                all == conn_list(conns(self.connections@)),
                items(list@) == all.take(i as int),
            decreases self.connections@.len() - i,
        {
            let ghost before = items(list@);
            let j = self.connections[i].to_json();
            list.push(j);
            assert(items(list@) =~= before.push(j@));
            assert(conns(self.connections@)[i as int] == self.connections@[i as int]@);
            assert(all.take(i + 1) =~= all.take(i as int).push(all[i as int]));
            i += 1;
        }
        assert(all.take(i as int) =~= all);
        let quarantined = match &self.quarantined {
            Some(q) => {
                let mut aside: Vec<Json> = Vec::new();
                let ghost qs = quarantined_list(quarantined_views(q@));
                let mut k: usize = 0;
                while k < q.len()
                    invariant
                        k <= q@.len(),
                        qs == quarantined_list(quarantined_views(q@)),
                        items(aside@) == qs.take(k as int),
                    decreases q@.len() - k,
                {
                    let ghost before = items(aside@);
                    let j = q[k].to_json();
                    aside.push(j);
                    assert(items(aside@) =~= before.push(j@));
                    assert(quarantined_views(q@)[k as int] == q@[k as int]@);
                    assert(qs.take(k + 1) =~= qs.take(k as int).push(qs[k as int]));
                    k += 1;
                }
                assert(qs.take(k as int) =~= qs);
                Some(Json::Arr(aside))
            },
            None => None,
        };
        let mut o: Vec<(String, Json)> = Vec::new();
        assert(fields(o@) =~= no_fields());
        set_field(&mut o, "version", Json::Int(self.version as i64));
        set_field(&mut o, "primary", Json::text(&self.primary));
        set_field(&mut o, "launchMode", Json::text(&self.launch_mode));
        set_field(&mut o, "lastUsed", Json::text(&self.last_used));
        set_field(&mut o, "connections", Json::Arr(list));
        set_opt(&mut o, "quarantined", quarantined);
        Json::Obj(o)
    }
}

// ---------------------------------------------------------------------------
// Reading back
// ---------------------------------------------------------------------------

proof fn lemma_lookup_put_opt(o: Fields, k: Seq<char>, v: Option<JsonV>, q: Seq<char>)
    ensures
        lookup(put_opt(o, k, v), q) == if q == k && v is Some {
            v
        } else {
            lookup(o, q)
        },
{
    if let Some(j) = v {
        lemma_lookup_put(o, k, j, q);
    }
}

/// The value of one field of an entry.
spec fn conn_field(c: ConnV, q: Seq<char>) -> Option<JsonV> {
    if q == "remoteProfile"@ && c.remote_profile is Some {
        opt_str_value(c.remote_profile)
    } else if q == "remoteHermesPath"@ && c.remote_hermes_path is Some {
        opt_str_value(c.remote_hermes_path)
    } else if q == "keyPath"@ && c.key_path is Some {
        opt_str_value(c.key_path)
    } else if q == "port"@ && c.port is Some {
        opt_int_value(c.port)
    } else if q == "user"@ && c.user is Some {
        opt_str_value(c.user)
    } else if q == "host"@ && c.host is Some {
        opt_str_value(c.host)
    } else if q == "org"@ && c.org is Some {
        opt_str_value(c.org)
    } else if q == "headers"@ && c.headers is Some {
        opt_obj_value(c.headers)
    } else if q == "token"@ && c.token is Some {
        c.token
    } else if q == "authMode"@ && c.auth_mode is Some {
        opt_str_value(c.auth_mode)
    } else if q == "url"@ && c.url is Some {
        opt_str_value(c.url)
    } else if q == "label"@ {
        Some(JsonV::Str(c.label))
    } else if q == "kind"@ {
        Some(JsonV::Str(c.kind))
    } else if q == "id"@ {
        Some(JsonV::Str(c.id))
    } else {
        None
    }
}

proof fn lemma_conn_lookup(c: ConnV, q: Seq<char>)
    ensures
        lookup(conn_fields(c), q) == conn_field(c, q),
{
    let o0 = no_fields();
    let o1 = put(o0, "id"@, JsonV::Str(c.id));
    let o2 = put(o1, "kind"@, JsonV::Str(c.kind));
    let o3 = put(o2, "label"@, JsonV::Str(c.label));
    let o4 = put_opt(o3, "url"@, opt_str_value(c.url));
    let o5 = put_opt(o4, "authMode"@, opt_str_value(c.auth_mode));
    let o6 = put_opt(o5, "token"@, c.token);
    let o7 = put_opt(o6, "headers"@, opt_obj_value(c.headers));
    let o8 = put_opt(o7, "org"@, opt_str_value(c.org));
    let o9 = put_opt(o8, "host"@, opt_str_value(c.host));
    let o10 = put_opt(o9, "user"@, opt_str_value(c.user));
    let o11 = put_opt(o10, "port"@, opt_int_value(c.port));
    let o12 = put_opt(o11, "keyPath"@, opt_str_value(c.key_path));
    let o13 = put_opt(o12, "remoteHermesPath"@, opt_str_value(c.remote_hermes_path));
    lemma_lookup_put(o0, "id"@, JsonV::Str(c.id), q);
    lemma_lookup_put(o1, "kind"@, JsonV::Str(c.kind), q);
    lemma_lookup_put(o2, "label"@, JsonV::Str(c.label), q);
    lemma_lookup_put_opt(o3, "url"@, opt_str_value(c.url), q);
    lemma_lookup_put_opt(o4, "authMode"@, opt_str_value(c.auth_mode), q);
    lemma_lookup_put_opt(o5, "token"@, c.token, q);
    lemma_lookup_put_opt(o6, "headers"@, opt_obj_value(c.headers), q);
    lemma_lookup_put_opt(o7, "org"@, opt_str_value(c.org), q);
    lemma_lookup_put_opt(o8, "host"@, opt_str_value(c.host), q);
    lemma_lookup_put_opt(o9, "user"@, opt_str_value(c.user), q);
    lemma_lookup_put_opt(o10, "port"@, opt_int_value(c.port), q);
    lemma_lookup_put_opt(o11, "keyPath"@, opt_str_value(c.key_path), q);
    lemma_lookup_put_opt(o12, "remoteHermesPath"@, opt_str_value(c.remote_hermes_path), q);
    lemma_lookup_put_opt(o13, "remoteProfile"@, opt_str_value(c.remote_profile), q);
}

/// Two different field names are told apart by their length or first letter.
proof fn lemma_conn_keys()
    ensures
        "id"@.len() == 2,
        "kind"@.len() == 4 && "kind"@[0] == 'k',
        "label"@.len() == 5 && "label"@[0] == 'l',
        "url"@.len() == 3 && "url"@[0] == 'u',
        "authMode"@.len() == 8,
        "token"@.len() == 5 && "token"@[0] == 't',
        "headers"@.len() == 7 && "headers"@[0] == 'h',
        "org"@.len() == 3 && "org"@[0] == 'o',
        "host"@.len() == 4 && "host"@[0] == 'h',
        "user"@.len() == 4 && "user"@[0] == 'u',
        "port"@.len() == 4 && "port"@[0] == 'p',
        "keyPath"@.len() == 7 && "keyPath"@[0] == 'k',
        "remoteHermesPath"@.len() == 16,
        "remoteProfile"@.len() == 13,
{
    reveal_strlit("id");
    reveal_strlit("kind");
    reveal_strlit("label");
    reveal_strlit("url");
    reveal_strlit("authMode");
    reveal_strlit("token");
    reveal_strlit("headers");
    reveal_strlit("org");
    reveal_strlit("host");
    reveal_strlit("user");
    reveal_strlit("port");
    reveal_strlit("keyPath");
    reveal_strlit("remoteHermesPath");
    reveal_strlit("remoteProfile");
}

/// What each field of a written entry holds.
pub proof fn lemma_conn_fields(c: ConnV)
    ensures
        field(conn_json(c), "id"@) == Some(JsonV::Str(c.id)),
        field(conn_json(c), "kind"@) == Some(JsonV::Str(c.kind)),
        field(conn_json(c), "label"@) == Some(JsonV::Str(c.label)),
        field(conn_json(c), "url"@) == opt_str_value(c.url),
        field(conn_json(c), "authMode"@) == opt_str_value(c.auth_mode),
        field(conn_json(c), "token"@) == c.token,
        field(conn_json(c), "headers"@) == opt_obj_value(c.headers),
        field(conn_json(c), "org"@) == opt_str_value(c.org),
        field(conn_json(c), "host"@) == opt_str_value(c.host),
        field(conn_json(c), "user"@) == opt_str_value(c.user),
        field(conn_json(c), "port"@) == opt_int_value(c.port),
        field(conn_json(c), "keyPath"@) == opt_str_value(c.key_path),
        field(conn_json(c), "remoteHermesPath"@) == opt_str_value(c.remote_hermes_path),
        field(conn_json(c), "remoteProfile"@) == opt_str_value(c.remote_profile),
{
    lemma_conn_keys();
    lemma_conn_lookup(c, "id"@);
    lemma_conn_lookup(c, "kind"@);
    lemma_conn_lookup(c, "label"@);
    lemma_conn_lookup(c, "url"@);
    lemma_conn_lookup(c, "authMode"@);
    lemma_conn_lookup(c, "token"@);
    lemma_conn_lookup(c, "headers"@);
    lemma_conn_lookup(c, "org"@);
    lemma_conn_lookup(c, "host"@);
    lemma_conn_lookup(c, "user"@);
    lemma_conn_lookup(c, "port"@);
    lemma_conn_lookup(c, "keyPath"@);
    lemma_conn_lookup(c, "remoteHermesPath"@);
    lemma_conn_lookup(c, "remoteProfile"@);
}

/// The fields of an entry are in the form that its kind calls for.
pub open spec fn settled_body(c: ConnV) -> bool {
    if c.kind == "remote"@ || c.kind == "cloud"@ {
        &&& c.url is Some && c.url->0.len() > 0 && trimmed(c.url->0) == c.url->0
        &&& c.auth_mode == Some("oauth"@) || c.auth_mode == Some("token"@)
        &&& c.headers is Some ==> c.headers->0.len() > 0 && stored_headers(c.headers->0)
            == c.headers->0
        &&& c.org is Some ==> c.kind == "cloud"@ && nonblank(c.org->0) == c.org
        &&& c.host is None && c.user is None && c.port is None && c.key_path is None
        &&& c.remote_hermes_path is None && c.remote_profile is None
    } else if c.kind == "ssh"@ {
        &&& c.url is None && c.auth_mode is None && c.token is None && c.headers is None
        &&& c.org is None
        &&& c.host is Some
        &&& ssh_fields_of(
            c.host,
            c.user,
            c.port,
            c.key_path,
            c.remote_hermes_path,
            c.remote_profile,
        ) == Some(
            SshV {
                host: c.host->0,
                user: c.user,
                port: c.port,
                key_path: c.key_path,
                remote_hermes_path: c.remote_hermes_path,
                remote_profile: c.remote_profile,
            },
        )
    } else {
        c == bare_conn(c.id, c.kind, c.label)
    }
}

/// An entry that is read back as it is, behind entries with these names and ids.
pub open spec fn settled_entry(c: ConnV, labels: Seq<Seq<char>>, ids: Seq<Seq<char>>) -> bool {
    &&& known_kind(c.kind)
    &&& trimmed(c.label).len() > 0 && unique_label_of(c.label, labels) == c.label
    &&& c.kind == "local"@ <==> c.id == "local"@
    &&& c.id.len() > 0 && trimmed(c.id) == c.id
    &&& !ids.contains(c.id)
    &&& settled_body(c)
}

/// A registry in the form that reading gives.
pub open spec fn settled(r: RegistryV) -> bool {
    &&& r.version == 2
    &&& r.launch_mode == "primary"@ || r.launch_mode == "last-used"@
    &&& has_local(r.connections)
    &&& forall|i: int|
        0 <= i < r.connections.len() ==> settled_entry(
            #[trigger] r.connections[i],
            labels_of(r.connections.take(i)),
            ids_of(r.connections.take(i)),
        )
    &&& has_id(r.connections, r.primary) && trimmed(r.primary) == r.primary
    &&& has_id(r.connections, r.last_used) && trimmed(r.last_used) == r.last_used
    &&& r.quarantined is Some ==> 0 < r.quarantined->0.len() <= 20
}

pub proof fn lemma_entry_read_back(c: ConnV, labels: Seq<Seq<char>>, ids: Seq<Seq<char>>)
    requires
        settled_entry(c, labels, ids),
    ensures
        read_entry(conn_json(c), labels, ids) == EntryRead::Add(c),
{
    let item = conn_json(c);
    lemma_conn_fields(c);
    lemma_kinds_differ();
    assert(str_field_or_empty(item, "kind"@) == c.kind);
    assert(str_field_or_empty(item, "label"@) == c.label);
    assert(entry_label(item, c.kind) == trimmed(c.label));
    lemma_trim_idempotent(c.label, Class::White);
    assert(label_base(trimmed(c.label)) == label_base(c.label));
    assert(str_field_or_empty(item, "id"@) == c.id);
    assert(entry_id(item, c.kind, c.label, ids) == c.id);
    if c.kind == "remote"@ || c.kind == "cloud"@ {
        assert(str_field_or_empty(item, "url"@) == c.url->0);
        assert(Some(auth_mode_of(str_field(item, "authMode"@))) == c.auth_mode);
        assert(loaded_headers(field(item, "headers"@)) == c.headers);
        if c.kind == "cloud"@ {
            if c.org is None {
                assert(str_field_or_empty(item, "org"@) =~= Seq::<char>::empty());
                assert(trimmed(Seq::<char>::empty()) =~= Seq::<char>::empty());
                assert(nonblank(Seq::<char>::empty()) is None);
            } else {
                assert(str_field_or_empty(item, "org"@) == c.org->0);
            }
        }
        assert(entry_body(item, c.kind, c.id, c.label) =~= EntryRead::Add(c));
    } else if c.kind == "ssh"@ {
        assert(str_field(item, "host"@) == c.host);
        assert(str_field(item, "user"@) == c.user);
        assert(port_of(item) == c.port);
        assert(str_field(item, "keyPath"@) == c.key_path);
        assert(str_field(item, "remoteHermesPath"@) == c.remote_hermes_path);
        assert(str_field(item, "remoteProfile"@) == c.remote_profile);
        let s = ssh_of(item)->0;
        assert(with_ssh(bare_conn(c.id, c.kind, c.label), s) =~= c);
    }
}

proof fn lemma_entries_read_back(start: LoadV, c: Seq<ConnV>, n: int)
    requires
        start.connections =~= Seq::<ConnV>::empty(),
        0 <= n <= c.len(),
        forall|i: int|
            0 <= i < c.len() ==> settled_entry(
                #[trigger] c[i],
                labels_of(c.take(i)),
                ids_of(c.take(i)),
            ),
    ensures
        load_items(start, conn_list(c.take(n))) == (LoadV {
            quarantined: start.quarantined,
            connections: c.take(n),
        }),
    decreases n,
{
    if n == 0 {
        assert(conn_list(c.take(0)) =~= Seq::<JsonV>::empty());
        assert(c.take(0) =~= start.connections);
    } else {
        lemma_entries_read_back(start, c, n - 1);
        let v = conn_list(c.take(n));
        assert(v.drop_last() =~= conn_list(c.take(n - 1)));
        assert(v.last() == conn_json(c[n - 1]));
        lemma_entry_read_back(c[n - 1], labels_of(c.take(n - 1)), ids_of(c.take(n - 1)));
        assert(c.take(n - 1).push(c[n - 1]) =~= c.take(n));
    }
}

proof fn lemma_quarantined_read_back(q: Seq<QuarantinedV>, n: int)
    requires
        0 <= n <= q.len() <= 20,
    ensures
        carried(quarantined_list(q.take(n))) == q.take(n),
    decreases n,
{
    if n == 0 {
        assert(quarantined_list(q.take(0)) =~= Seq::<JsonV>::empty());
        assert(q.take(0) =~= Seq::<QuarantinedV>::empty());
    } else {
        lemma_quarantined_read_back(q, n - 1);
        let v = quarantined_list(q.take(n));
        assert(v.drop_last() =~= quarantined_list(q.take(n - 1)));
        let x = q[n - 1];
        assert(v.last() == quarantined_json(x));
        let o = put(no_fields(), "reason"@, JsonV::Str(x.reason));
        reveal_strlit("reason");
        reveal_strlit("entry");
        lemma_lookup_put(no_fields(), "reason"@, JsonV::Str(x.reason), "reason"@);
        lemma_lookup_put(o, "entry"@, x.entry, "reason"@);
        lemma_lookup_put(o, "entry"@, x.entry, "entry"@);
        assert("reason"@.len() == 6 && "entry"@.len() == 5);
        assert(q.take(n - 1).push(x) =~= q.take(n));
    }
}

/// The fields that a written registry is read back from.
pub proof fn lemma_registry_fields(r: RegistryV)
    ensures
        registry_json(r) is Obj,
        str_field_or_empty(registry_json(r), "primary"@) == r.primary,
        str_field_or_empty(registry_json(r), "lastUsed"@) == r.last_used,
        str_field(registry_json(r), "launchMode"@) == Some(r.launch_mode),
        field(registry_json(r), "connections"@) == Some(JsonV::Arr(conn_list(r.connections))),
        field(registry_json(r), "quarantined"@) == match r.quarantined {
            Some(q) => Some(JsonV::Arr(quarantined_list(q))),
            None => None,
        },
{
    let o0 = no_fields();
    let o1 = put(o0, "version"@, JsonV::Int(r.version as i64));
    let o2 = put(o1, "primary"@, JsonV::Str(r.primary));
    let o3 = put(o2, "launchMode"@, JsonV::Str(r.launch_mode));
    let o4 = put(o3, "lastUsed"@, JsonV::Str(r.last_used));
    let list = JsonV::Arr(conn_list(r.connections));
    let o5 = put(o4, "connections"@, list);
    reveal_strlit("version");
    reveal_strlit("primary");
    reveal_strlit("launchMode");
    reveal_strlit("lastUsed");
    reveal_strlit("connections");
    reveal_strlit("quarantined");
    assert("version"@[0] == 'v' && "version"@.len() == 7);
    assert("primary"@[0] == 'p' && "primary"@.len() == 7);
    assert("launchMode"@.len() == 10);
    assert("lastUsed"@.len() == 8);
    assert("connections"@[0] == 'c' && "connections"@.len() == 11);
    assert("quarantined"@[0] == 'q' && "quarantined"@.len() == 11);
    assert forall|q: Seq<char>| #[trigger]
        lookup(registry_fields(r), q) == if q == "quarantined"@ && r.quarantined is Some {
            Some(JsonV::Arr(quarantined_list(r.quarantined->0)))
        } else if q == "connections"@ {
            Some(list)
        } else if q == "lastUsed"@ {
            Some(JsonV::Str(r.last_used))
        } else if q == "launchMode"@ {
            Some(JsonV::Str(r.launch_mode))
        } else if q == "primary"@ {
            Some(JsonV::Str(r.primary))
        } else if q == "version"@ {
            Some(JsonV::Int(r.version as i64))
        } else {
            None
        } by {
        lemma_lookup_put(o0, "version"@, JsonV::Int(r.version as i64), q);
        lemma_lookup_put(o1, "primary"@, JsonV::Str(r.primary), q);
        lemma_lookup_put(o2, "launchMode"@, JsonV::Str(r.launch_mode), q);
        lemma_lookup_put(o3, "lastUsed"@, JsonV::Str(r.last_used), q);
        lemma_lookup_put(o4, "connections"@, list, q);
        if r.quarantined is Some {
            lemma_lookup_put(
                o5,
                "quarantined"@,
                JsonV::Arr(quarantined_list(r.quarantined->0)),
                q,
            );
        }
    }
}

/// A local entry is listed as one.
pub proof fn lemma_listed_local(c: Seq<ConnV>)
    ensures
        lists_local(conn_list(c)) == has_local(c),
{
    let v = conn_list(c);
    if has_local(c) {
        let k = choose|k: int| 0 <= k < c.len() && (#[trigger] c[k]).kind == "local"@;
        lemma_conn_fields(c[k]);
        assert(str_field_or_empty(v[k], "kind"@) == "local"@);
    }
    if lists_local(v) {
        let k = choose|k: int|
            0 <= k < v.len() && str_field_or_empty(#[trigger] v[k], "kind"@) == "local"@;
        lemma_conn_fields(c[k]);
        assert(c[k].kind == "local"@);
    }
}

/// A registry in settled form is read back as it was written.
pub proof fn lemma_settled_reads_back(r: RegistryV)
    requires
        settled(r),
    ensures
        normalized(registry_json(r)) == r,
{
    let raw = registry_json(r);
    lemma_registry_fields(r);
    reveal_strlit("primary");
    reveal_strlit("last-used");
    assert("primary"@[0] == 'p' && "last-used"@[0] == 'l');
    let q = match r.quarantined {
        Some(q) => q,
        None => Seq::empty(),
    };
    let start = LoadV { quarantined: q, connections: Seq::empty() };
    assert(carried(list_of(field(raw, "quarantined"@))) =~= q) by {
        if r.quarantined is Some {
            lemma_quarantined_read_back(q, q.len() as int);
            assert(q.take(q.len() as int) =~= q);
        } else {
            assert(carried(Seq::<JsonV>::empty()) =~= Seq::<QuarantinedV>::empty());
        }
    }
    let c = r.connections;
    lemma_entries_read_back(start, c, c.len() as int);
    assert(c.take(c.len() as int) =~= c);
    lemma_listed_local(c);
    assert(loaded(raw) =~= (LoadV { quarantined: q, connections: c }));
    assert(normalized(raw) =~= r);
}

} // verus!
