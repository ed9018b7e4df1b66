//! Reading a registry out of JSON: malformed entries are set aside instead of
//! dropped, names and ids are kept apart, and what points nowhere is pointed at
//! an entry that exists.

use crate::json::{
    field, fields, items, no_fields, put, set_field, str_field, str_field_or_empty, Fields, Json,
    JsonV,
};
use crate::registry::{
    auth_mode_of, bare_conn, connection_id_for_label, conns, default_registry, has_id, holds_id,
    host_label_from_base_url, host_label_of, id_for_label, id_taken, ids_of, is_storable_header,
    keys_of, label_key_of, labels_of, lemma_made_id, lemma_short_label, list_ids, list_labels,
    local_conn, local_entry, nonblank, norm_auth_mode, normalize_ssh_fields, quarantined_views,
    small_int, ssh_fields_of, storable_header, trim_nonblank, unique_label, unique_label_of, ConnV,
    ConnectionRegistry, QuarantinedEntry, QuarantinedV, RegistryConnection, RegistryV, SshV,
    REGISTRY_VERSION,
};
use crate::registry_reload::{kept_name, law_second_load_changes_nothing, taken_apart};
use crate::registry_store::registry_json;
use crate::text::{
    lemma_trim_fixed, lemma_trim_idempotent, list_has, parse_i64, same, texts, trim, trimmed, Class,
};
use vstd::prelude::*;

verus! {

// ---------------------------------------------------------------------------
// One entry
// ---------------------------------------------------------------------------

/// How many unusable entries are kept.
pub const QUARANTINE_CAP: usize = 20;

/// What becomes of one stored entry.
pub enum EntryRead {
    /// It stands for nothing.
    Skip,
    /// It is set aside, for this reason.
    Quarantine(Seq<char>),
    Add(ConnV),
}

pub open spec fn known_kind(kind: Seq<char>) -> bool {
    kind == "local"@ || kind == "remote"@ || kind == "cloud"@ || kind == "ssh"@
}

/// The name of an entry: its own, else its host, else its kind.
pub open spec fn entry_label(item: JsonV, kind: Seq<char>) -> Seq<char> {
    let own = trimmed(str_field_or_empty(item, "label"@));
    if own.len() > 0 {
        own
    } else if kind == "ssh"@ {
        match str_field(item, "host"@) {
            Some(h) => h,
            None => "ssh"@,
        }
    } else {
        match str_field(item, "url"@) {
            Some(u) => match host_label_of(u) {
                Some(h) => h,
                None => kind,
            },
            None => kind,
        }
    }
}

/// The id of an entry: `local` for the local one, for which it is reserved; else
/// its own unless that is blank or taken, else one made from its name.
pub open spec fn entry_id(
    item: JsonV,
    kind: Seq<char>,
    label: Seq<char>,
    ids: Seq<Seq<char>>,
) -> Seq<char> {
    let own = if kind == "local"@ {
        "local"@
    } else {
        trimmed(str_field_or_empty(item, "id"@))
    };
    if own.len() == 0 || (id_taken(ids, own) && kind != "local"@) {
        id_for_label(label, ids)
    } else {
        own
    }
}

/// The headers that may be stored, under their trimmed names.
pub open spec fn stored_headers(o: Fields) -> Fields
    decreases o.len(),
{
    if o.len() == 0 {
        no_fields()
    } else {
        let rest = stored_headers(o.drop_last());
        let name = trimmed(o.last().0);
        if storable_header(name) {
            put(rest, name, o.last().1)
        } else {
            rest
        }
    }
}

pub open spec fn some_if_any(o: Fields) -> Option<Fields> {
    if o.len() > 0 {
        Some(o)
    } else {
        None
    }
}

pub open spec fn loaded_headers(h: Option<JsonV>) -> Option<Fields> {
    match h {
        Some(JsonV::Obj(o)) => some_if_any(stored_headers(o)),
        _ => None,
    }
}

/// A port given as a number or as text.
pub open spec fn port_of(item: JsonV) -> Option<i64> {
    match field(item, "port"@) {
        Some(JsonV::Int(n)) => Some(n),
        Some(JsonV::Str(s)) => small_int(trimmed(s)),
        _ => None,
    }
}

/// The SSH fields of a value.
pub open spec fn ssh_of(item: JsonV) -> Option<SshV> {
    ssh_fields_of(
        str_field(item, "host"@),
        str_field(item, "user"@),
        port_of(item),
        str_field(item, "keyPath"@),
        str_field(item, "remoteHermesPath"@),
        str_field(item, "remoteProfile"@),
    )
}

/// An entry with its SSH fields.
pub open spec fn with_ssh(c: ConnV, s: SshV) -> ConnV {
    ConnV {
        host: Some(s.host),
        user: s.user,
        port: s.port,
        key_path: s.key_path,
        remote_hermes_path: s.remote_hermes_path,
        remote_profile: s.remote_profile,
        ..c
    }
}

/// An entry of a known kind, with its name and id settled.
pub open spec fn entry_body(
    item: JsonV,
    kind: Seq<char>,
    id: Seq<char>,
    label: Seq<char>,
) -> EntryRead {
    let c = bare_conn(id, kind, label);
    if kind == "remote"@ || kind == "cloud"@ {
        let url = trimmed(str_field_or_empty(item, "url"@));
        if url.len() == 0 {
            EntryRead::Quarantine("entry-missing-url"@)
        } else {
            EntryRead::Add(
                ConnV {
                    url: Some(url),
                    auth_mode: Some(auth_mode_of(str_field(item, "authMode"@))),
                    token: field(item, "token"@),
                    headers: loaded_headers(field(item, "headers"@)),
                    org: if kind == "cloud"@ {
                        nonblank(str_field_or_empty(item, "org"@))
                    } else {
                        None
                    },
                    ..c
                },
            )
        }
    } else if kind == "ssh"@ {
        match ssh_of(item) {
            Some(s) => EntryRead::Add(with_ssh(c, s)),
            None => EntryRead::Quarantine("entry-missing-ssh-host"@),
        }
    } else {
        EntryRead::Add(c)
    }
}

pub open spec fn read_entry(item: JsonV, labels: Seq<Seq<char>>, ids: Seq<Seq<char>>) -> EntryRead {
    match item {
        JsonV::Null => EntryRead::Skip,
        JsonV::Bool(_) => EntryRead::Skip,
        JsonV::Obj(_) => {
            let kind = str_field_or_empty(item, "kind"@);
            if !known_kind(kind) {
                EntryRead::Quarantine("entry-unrecognized-kind"@)
            } else {
                let label = unique_label_of(entry_label(item, kind), labels);
                let id = entry_id(item, kind, label, ids);
                if ids.contains(id) {
                    EntryRead::Skip
                } else {
                    entry_body(item, kind, id, label)
                }
            }
        },
        _ => EntryRead::Quarantine("entry-malformed"@),
    }
}

// ---------------------------------------------------------------------------
// All entries
// ---------------------------------------------------------------------------

#[verifier::ext_equal]
pub struct LoadV {
    pub quarantined: Seq<QuarantinedV>,
    pub connections: Seq<ConnV>,
}

pub open spec fn set_aside(q: Seq<QuarantinedV>, reason: Seq<char>, entry: JsonV) -> Seq<
    QuarantinedV,
> {
    if q.len() < 20 {
        q.push(QuarantinedV { reason, entry })
    } else {
        q
    }
}

pub open spec fn load_item(st: LoadV, item: JsonV) -> LoadV {
    match read_entry(item, labels_of(st.connections), ids_of(st.connections)) {
        EntryRead::Skip => st,
        EntryRead::Quarantine(reason) => LoadV {
            quarantined: set_aside(st.quarantined, reason, item),
            ..st
        },
        EntryRead::Add(c) => LoadV { connections: st.connections.push(c), ..st },
    }
}

pub open spec fn load_items(start: LoadV, v: Seq<JsonV>) -> LoadV
    decreases v.len(),
{
    if v.len() == 0 {
        start
    } else {
        load_item(load_items(start, v.drop_last()), v.last())
    }
}

/// What an earlier load set aside is carried along.
pub open spec fn carried(v: Seq<JsonV>) -> Seq<QuarantinedV>
    decreases v.len(),
{
    if v.len() == 0 {
        Seq::empty()
    } else {
        let rest = carried(v.drop_last());
        match field(v.last(), "entry"@) {
            Some(entry) => set_aside(
                rest,
                match str_field(v.last(), "reason"@) {
                    Some(r) => r,
                    None => "unknown"@,
                },
                entry,
            ),
            None => rest,
        }
    }
}

pub open spec fn list_of(j: Option<JsonV>) -> Seq<JsonV> {
    match j {
        Some(JsonV::Arr(v)) => v,
        _ => Seq::empty(),
    }
}

/// Whether one of the stored entries is a local one.
pub open spec fn lists_local(v: Seq<JsonV>) -> bool {
    exists|i: int| 0 <= i < v.len() && str_field_or_empty(#[trigger] v[i], "kind"@) == "local"@
}

/// What the stored entries are read behind: a local entry of their own, or the
/// one that is put in where they have none.
pub open spec fn first_entries(v: Seq<JsonV>) -> Seq<ConnV> {
    if lists_local(v) {
        Seq::empty()
    } else {
        seq![local_conn("This device"@)]
    }
}

/// The entries of a stored registry.
pub open spec fn loaded(raw: JsonV) -> LoadV {
    let v = list_of(field(raw, "connections"@));
    load_items(
        LoadV {
            quarantined: carried(list_of(field(raw, "quarantined"@))),
            connections: first_entries(v),
        },
        v,
    )
}

pub open spec fn has_local(c: Seq<ConnV>) -> bool {
    exists|i: int| 0 <= i < c.len() && (#[trigger] c[i]).kind == "local"@
}

pub open spec fn id_or(c: Seq<ConnV>, want: Seq<char>, fallback: Seq<char>) -> Seq<char> {
    if has_id(c, want) {
        want
    } else {
        fallback
    }
}

/// The registry that a stored value stands for.
pub open spec fn normalized(raw: JsonV) -> RegistryV {
    if !(raw is Obj) {
        default_registry()
    } else {
        let l = loaded(raw);
        let c = l.connections;
        let primary = id_or(c, trimmed(str_field_or_empty(raw, "primary"@)), "local"@);
        RegistryV {
            version: 2,
            primary,
            launch_mode: if str_field(raw, "launchMode"@) == Some("last-used"@) {
                "last-used"@
            } else {
                "primary"@
            },
            last_used: id_or(c, trimmed(str_field_or_empty(raw, "lastUsed"@)), primary),
            connections: c,
            quarantined: if l.quarantined.len() > 0 {
                Some(l.quarantined)
            } else {
                None
            },
        }
    }
}

// ---------------------------------------------------------------------------
// What every loaded registry satisfies
// ---------------------------------------------------------------------------

pub open spec fn distinct(v: Seq<Seq<char>>) -> bool {
    forall|i: int, j: int| 0 <= i < j < v.len() ==> #[trigger] v[i] != #[trigger] v[j]
}

/// An entry has what its kind needs.
pub open spec fn usable_entry(c: ConnV) -> bool {
    &&& known_kind(c.kind)
    &&& c.kind == "local"@ ==> c.id == "local"@
    &&& c.kind == "remote"@ || c.kind == "cloud"@ ==> c.url is Some && c.url->0.len() > 0
    &&& c.kind == "ssh"@ ==> c.host is Some && c.host->0.len() > 0
}

/// A registry that can be worked with: a local entry, no entry without what its
/// kind needs, and nothing that points at an entry that is not there.
pub open spec fn sound(r: RegistryV) -> bool {
    &&& r.version == 2
    &&& has_local(r.connections)
    &&& forall|i: int| 0 <= i < r.connections.len() ==> usable_entry(#[trigger] r.connections[i])
    &&& has_id(r.connections, r.primary)
    &&& has_id(r.connections, r.last_used)
    &&& r.launch_mode == "primary"@ || r.launch_mode == "last-used"@
    &&& r.quarantined is Some ==> 0 < r.quarantined->0.len() <= 20
}

pub proof fn lemma_local_has_id(c: Seq<ConnV>)
    requires
        has_local(c),
        forall|i: int|
            0 <= i < c.len() && (#[trigger] c[i]).kind == "local"@ ==> c[i].id == "local"@,
    ensures
        has_id(c, "local"@),
{
    let i = choose|i: int| 0 <= i < c.len() && (#[trigger] c[i]).kind == "local"@;
    assert(c[i].id == "local"@);
}

/// The literal kinds are different texts.
pub proof fn lemma_kinds_differ()
    ensures
        "local"@ != "remote"@,
        "local"@ != "cloud"@,
        "local"@ != "ssh"@,
        "remote"@ != "cloud"@,
        "remote"@ != "ssh"@,
        "cloud"@ != "ssh"@,
        "local"@.len() > 0,
        "token"@ != "oauth"@,
{
    reveal_strlit("local");
    reveal_strlit("remote");
    reveal_strlit("cloud");
    reveal_strlit("ssh");
    reveal_strlit("token");
    reveal_strlit("oauth");
    assert("local"@[0] == 'l');
    assert("remote"@[0] == 'r');
    assert("cloud"@[0] == 'c');
    assert("ssh"@[0] == 's');
    assert("token"@[0] == 't');
    assert("oauth"@[0] == 'o');
}

// ---------------------------------------------------------------------------
// Executable reading
// ---------------------------------------------------------------------------

fn read_label(item: &Json, kind: &str) -> (r: String)
    ensures
        r@ == entry_label(item@, kind@),
{
    let own = trim(&item.get_str_or_empty("label"));
    if !own.as_str().is_empty() {
        return own;
    }
    if same(kind, "ssh") {
        match item.get_str("host") {
            Some(h) => h,
            None => "ssh".to_string(),
        }
    } else {
        match item.get_str("url") {
            Some(u) => match host_label_from_base_url(&u) {
                Some(h) => h,
                None => kind.to_string(),
            },
            None => kind.to_string(),
        }
    }
}

fn read_id(item: &Json, kind: &str, label: &str, ids: &Vec<String>) -> (r: String)
    ensures
        r@ == entry_id(item@, kind@, label@, texts(ids@)),
{
    let local = same(kind, "local");
    let own = if local {
        "local".to_string()
    } else {
        trim(&item.get_str_or_empty("id"))
    };
    if own.as_str().is_empty() || ((list_has(ids, &own) || same(&own, "local")) && !local) {
        connection_id_for_label(label, ids)
    } else {
        own
    }
}

/// Keeps the headers that may be stored.
pub fn store_headers(o: &Vec<(String, Json)>) -> (r: Vec<(String, Json)>)
    ensures
        fields(r@) == stored_headers(fields(o@)),
{
    let ghost f = fields(o@);
    let mut out: Vec<(String, Json)> = Vec::new();
    assert(fields(out@) =~= stored_headers(f.take(0)));
    let mut i: usize = 0;
    while i < o.len()
        invariant
            i <= o@.len(),
            f == fields(o@),
            fields(out@) == stored_headers(f.take(i as int)),
        decreases o@.len() - i,
    {
        assert(f.take(i + 1).drop_last() =~= f.take(i as int));
        assert(f.take(i + 1).last() == (o@[i as int].0@, o@[i as int].1@));
        let name = trim(&o[i].0);
        if is_storable_header(&name) {
            set_field(&mut out, &name, o[i].1.dup());
        }
        i += 1;
    }
    assert(f.take(i as int) =~= f);
    out
}

/// A port given as a number or as text.
pub fn read_port(item: &Json) -> (r: Option<i64>)
    ensures
        r == port_of(item@),
{
    match item.get("port") {
        Some(Json::Int(n)) => Some(*n),
        Some(Json::Str(s)) => parse_i64(&trim(s)),
        _ => None,
    }
}

/// The SSH fields of a value.
pub fn read_ssh(item: &Json) -> (r: Option<crate::registry::SshFields>)
    ensures
        match r {
            Some(s) => ssh_of(item@) == Some(s@),
            None => ssh_of(item@) is None,
        },
{
    normalize_ssh_fields(
        &item.get_str("host"),
        &item.get_str("user"),
        read_port(item),
        &item.get_str("keyPath"),
        &item.get_str("remoteHermesPath"),
        &item.get_str("remoteProfile"),
    )
}

/// An entry with its SSH fields put in.
pub fn put_ssh(c: RegistryConnection, s: crate::registry::SshFields) -> (r: RegistryConnection)
    ensures
        r@ == with_ssh(c@, s@),
{
    RegistryConnection {
        host: Some(s.host),
        user: s.user,
        port: s.port,
        key_path: s.key_path,
        remote_hermes_path: s.remote_hermes_path,
        remote_profile: s.remote_profile,
        id: c.id,
        kind: c.kind,
        label: c.label,
        url: c.url,
        auth_mode: c.auth_mode,
        token: c.token,
        headers: c.headers,
        org: c.org,
    }
}

/// What becomes of one stored entry.
enum ReadOutcome {
    Skip,
    Quarantine(String),
    Add(RegistryConnection),
}

spec fn outcome_view(o: ReadOutcome) -> EntryRead {
    match o {
        ReadOutcome::Skip => EntryRead::Skip,
        ReadOutcome::Quarantine(r) => EntryRead::Quarantine(r@),
        ReadOutcome::Add(c) => EntryRead::Add(c@),
    }
}

fn read_body(item: &Json, kind: &str, id: String, label: String) -> (r: ReadOutcome)
    requires
        known_kind(kind@),
        kind@ == "local"@ ==> id@ == "local"@,
    ensures
        outcome_view(r) == entry_body(item@, kind@, id@, label@),
        r matches ReadOutcome::Add(c) ==> usable_entry(c@) && c@.id == id@ && c@.label == label@,
{
    broadcast use crate::json::group_json_views;

    proof {
        lemma_kinds_differ();
    }
    let mut c = RegistryConnection::bare(id, kind, label);
    if same(kind, "remote") || same(kind, "cloud") {
        let url = trim(&item.get_str_or_empty("url"));
        if url.as_str().is_empty() {
            return ReadOutcome::Quarantine("entry-missing-url".to_string());
        }
        c.url = Some(url);
        c.auth_mode = Some(norm_auth_mode(&item.get_str("authMode")));
        c.token = match item.get("token") {
            Some(t) => Some(t.dup()),
            None => None,
        };
        c.headers = match item.get("headers") {
            Some(Json::Obj(o)) => {
                let stored = store_headers(o);
                assert(fields(stored@).len() == stored@.len());
                if stored.len() > 0 {
                    Some(stored)
                } else {
                    None
                }
            },
            _ => None,
        };
        if same(kind, "cloud") {
            c.org = trim_nonblank(&item.get_str_or_empty("org"));
        }
        ReadOutcome::Add(c)
    } else if same(kind, "ssh") {
        match read_ssh(item) {
            Some(s) => ReadOutcome::Add(put_ssh(c, s)),
            None => ReadOutcome::Quarantine("entry-missing-ssh-host".to_string()),
        }
    } else {
        ReadOutcome::Add(c)
    }
}

/// A stored entry that comes back as it is: not one of SSH, and with a name that
/// leaves room for three digits.
pub open spec fn plain_item(item: JsonV) -> bool {
    let kind = str_field_or_empty(item, "kind"@);
    let own = trimmed(str_field_or_empty(item, "label"@));
    known_kind(kind) ==> kind != "ssh"@ && if own.len() > 0 {
        own.len() <= 56
    } else {
        1 <= trimmed(entry_label(item, kind)).len() <= 56
    }
}

/// A registry of plain entries, of which fewer than a thousand names can come.
pub open spec fn plain_entries(raw: JsonV) -> bool {
    let v = list_of(field(raw, "connections"@));
    v.len() < 998 && forall|i: int| 0 <= i < v.len() ==> plain_item(#[trigger] v[i])
}

/// What holds of an entry that was read behind so many others.
spec fn read_as_plain(item: JsonV, c: ConnV, count: nat) -> bool {
    plain_item(item) && count < 998 ==> kept_name(c.label) && c.kind != "ssh"@
}

fn read_item(item: &Json, labels: &Vec<String>, ids: &Vec<String>) -> (r: ReadOutcome)
    ensures
        outcome_view(r) == read_entry(item@, texts(labels@), texts(ids@)),
        r matches ReadOutcome::Add(c) ==> {
            &&& usable_entry(c@)
            &&& !texts(ids@).contains(c@.id)
            &&& !keys_of(texts(labels@)).contains(label_key_of(c@.label))
            &&& read_as_plain(item@, c@, labels@.len())
        },
{
    broadcast use crate::json::group_json_views;

    match item {
        Json::Null => ReadOutcome::Skip,
        Json::Bool(_) => ReadOutcome::Skip,
        Json::Obj(_) => {
            let kind = item.get_str_or_empty("kind");
            if !same(&kind, "local") && !same(&kind, "remote") && !same(&kind, "cloud") && !same(
                &kind,
                "ssh",
            ) {
                return ReadOutcome::Quarantine("entry-unrecognized-kind".to_string());
            }
            let label = unique_label(&read_label(item, &kind), labels);
            proof {
                let name = entry_label(item@, kind@);
                lemma_trim_idempotent(str_field_or_empty(item@, "label"@), Class::White);
                if plain_item(item@) && labels@.len() < 998 {
                    lemma_short_label(name, label@, labels@.len() + 2);
                }
            }
            let id = read_id(item, &kind, &label, ids);
            if list_has(ids, &id) {
                return ReadOutcome::Skip;
            }
            proof {
                lemma_kinds_differ();
            }
            read_body(item, &kind, id, label)
        },
        _ => ReadOutcome::Quarantine("entry-malformed".to_string()),
    }
}

fn quarantine(q: &mut Vec<QuarantinedEntry>, reason: String, entry: Json)
    ensures
        quarantined_views(final(q)@) == set_aside(
            quarantined_views(old(q)@),
            reason@,
            entry@,
        ),
{
    let ghost before = quarantined_views(q@);
    if q.len() < QUARANTINE_CAP {
        let e = QuarantinedEntry { reason, entry };
        q.push(e);
        assert(quarantined_views(q@) =~= before.push(e@));
    }
}

fn carry_quarantined(v: &Vec<Json>) -> (r: Vec<QuarantinedEntry>)
    ensures
        quarantined_views(r@) == carried(items(v@)),
        r@.len() <= 20,
{
    let ghost all = items(v@);
    let mut out: Vec<QuarantinedEntry> = Vec::new();
    assert(quarantined_views(out@) =~= carried(all.take(0)));
    let mut i: usize = 0;
    while i < v.len()
        invariant
            i <= v@.len(),
            all == items(v@),
            quarantined_views(out@) == carried(all.take(i as int)),
            out@.len() <= 20,
        decreases v@.len() - i,
    {
        assert(all.take(i + 1).drop_last() =~= all.take(i as int));
        assert(all.take(i + 1).last() == v@[i as int]@);
        if let Some(entry) = v[i].get("entry") {
            let reason = match v[i].get_str("reason") {
                Some(r) => r,
                None => "unknown".to_string(),
            };
            quarantine(&mut out, reason, entry.dup());
            assert(quarantined_views(out@).len() == out@.len());
        }
        i += 1;
    }
    assert(all.take(i as int) =~= all);
    out
}

/// What holds of the entries while they are read.
spec fn reading_ok(c: Seq<ConnV>) -> bool {
    &&& forall|i: int| 0 <= i < c.len() ==> usable_entry(#[trigger] c[i])
    &&& distinct(ids_of(c))
    &&& distinct(keys_of(labels_of(c)))
}

/// The local id belongs to local entries.
pub open spec fn local_id_kept(c: Seq<ConnV>) -> bool {
    forall|i: int| 0 <= i < c.len() && (#[trigger] c[i]).id == "local"@ ==> c[i].kind == "local"@
}

/// An entry is added under the id and the kind that were read.
proof fn lemma_added(item: JsonV, labels: Seq<Seq<char>>, ids: Seq<Seq<char>>)
    ensures
        match read_entry(item, labels, ids) {
            EntryRead::Add(c) => {
                &&& c.kind == str_field_or_empty(item, "kind"@)
                &&& c.id == "local"@ ==> c.kind == "local"@
            },
            _ => str_field_or_empty(item, "kind"@) == "local"@ ==> ids.contains("local"@),
        },
{
    lemma_kinds_differ();
    let kind = str_field_or_empty(item, "kind"@);
    let label = unique_label_of(entry_label(item, kind), labels);
    lemma_made_id(label, ids);
}

/// A local entry among the stored ones is read, and one that is there stays.
proof fn lemma_local_loads(start: LoadV, v: Seq<JsonV>)
    requires
        local_id_kept(start.connections),
    ensures
        local_id_kept(load_items(start, v).connections),
        has_local(start.connections) || lists_local(v) ==> has_local(
            load_items(start, v).connections,
        ),
    decreases v.len(),
{
    if v.len() > 0 {
        let w = v.drop_last();
        lemma_local_loads(start, w);
        let b = load_items(start, w).connections;
        let c = load_items(start, v).connections;
        lemma_added(v.last(), labels_of(b), ids_of(b));
        if has_local(b) {
            let k = choose|k: int| 0 <= k < b.len() && (#[trigger] b[k]).kind == "local"@;
            assert(c[k] == b[k]);
        } else if lists_local(v) {
            let k = choose|k: int|
                0 <= k < v.len() && str_field_or_empty(#[trigger] v[k], "kind"@) == "local"@;
            if k < w.len() {
                assert(w[k] == v[k]);
                assert(lists_local(w));
            }
            assert(v[v.len() - 1] == v.last());
            if ids_of(b).contains("local"@) {
                let j = choose|j: int| 0 <= j < ids_of(b).len() && ids_of(b)[j] == "local"@;
                assert(b[j].id == "local"@);
                assert(b[j].kind == "local"@);
            }
            assert(c[b.len() as int].kind == "local"@);
        }
    }
}

/// Every registry that is read has a local entry.
pub proof fn lemma_first_local(raw: JsonV)
    ensures
        has_local(loaded(raw).connections),
        local_id_kept(loaded(raw).connections),
{
    let v = list_of(field(raw, "connections"@));
    let first = first_entries(v);
    lemma_kinds_differ();
    if !lists_local(v) {
        assert(first[0].kind == "local"@);
    }
    lemma_local_loads(
        LoadV {
            quarantined: carried(list_of(field(raw, "quarantined"@))),
            connections: first,
        },
        v,
    );
}

proof fn lemma_reading_push(c: Seq<ConnV>, x: ConnV)
    requires
        reading_ok(c),
        usable_entry(x),
        !ids_of(c).contains(x.id),
        !keys_of(labels_of(c)).contains(label_key_of(x.label)),
    ensures
        reading_ok(c.push(x)),
{
    let d = c.push(x);
    assert forall|i: int, j: int| 0 <= i < j < ids_of(d).len() implies #[trigger] ids_of(d)[i]
        != #[trigger] ids_of(d)[j] by {
        assert(ids_of(d)[i] == ids_of(c)[i]);
        if j < c.len() {
            assert(ids_of(d)[j] == ids_of(c)[j]);
        } else {
            assert(ids_of(d)[j] == x.id);
            assert(ids_of(c).contains(ids_of(c)[i]));
        }
    }
    let k = keys_of(labels_of(d));
    let l = keys_of(labels_of(c));
    assert forall|i: int, j: int| 0 <= i < j < k.len() implies #[trigger] k[i] != #[trigger] k[j] by {
        assert(k[i] == l[i]);
        if j < c.len() {
            assert(k[j] == l[j]);
        } else {
            assert(k[j] == label_key_of(x.label));
            assert(l.contains(l[i]));
        }
    }
}

fn read_all(
    start: Vec<QuarantinedEntry>,
    first: Vec<RegistryConnection>,
    v: &Vec<Json>,
) -> (r: (Vec<QuarantinedEntry>, Vec<RegistryConnection>))
    requires
        start@.len() <= 20,
        reading_ok(conns(first@)),
    ensures
        ({
            let l = load_items(
                LoadV { quarantined: quarantined_views(start@), connections: conns(first@) },
                items(v@),
            );
            &&& quarantined_views(r.0@) == l.quarantined
            &&& conns(r.1@) == l.connections
            &&& r.0@.len() <= 20
            &&& reading_ok(l.connections)
            &&& {
                &&& taken_apart(conns(first@))
                &&& first@.len() + v@.len() <= 998
                &&& forall|i: int| 0 <= i < v@.len() ==> plain_item(#[trigger] items(v@)[i])
            } ==> taken_apart(l.connections)
        }),
{
    let ghost all = items(v@);
    let ghost begin = LoadV {
        quarantined: quarantined_views(start@),
        connections: conns(first@),
    };
    let ghost plain = {
        &&& taken_apart(begin.connections)
        &&& begin.connections.len() + v@.len() <= 998
        &&& forall|i: int| 0 <= i < v@.len() ==> plain_item(#[trigger] all[i])
    };
    let mut q = start;
    let mut c = first;
    assert(load_items(begin, all.take(0)) =~= (LoadV {
        quarantined: quarantined_views(q@),
        connections: conns(c@),
    }));
    let mut i: usize = 0;
    while i < v.len()
        invariant
            i <= v@.len(),
            all == items(v@),
            q@.len() <= 20,
            load_items(begin, all.take(i as int)) == (LoadV {
                quarantined: quarantined_views(q@),
                connections: conns(c@),
            }),
            reading_ok(conns(c@)),
            c@.len() <= begin.connections.len() + i,
            plain == {
                &&& taken_apart(begin.connections)
                &&& begin.connections.len() + v@.len() <= 998
                &&& forall|i: int| 0 <= i < v@.len() ==> plain_item(#[trigger] all[i])
            },
            plain ==> taken_apart(conns(c@)),
        decreases v@.len() - i,
    {
        assert(all.take(i + 1).drop_last() =~= all.take(i as int));
        assert(all.take(i + 1).last() == v@[i as int]@);
        let ghost before = conns(c@);
        let labels = list_labels(&c);
        let ids = list_ids(&c);
        match read_item(&v[i], &labels, &ids) {
            ReadOutcome::Skip => {},
            ReadOutcome::Quarantine(reason) => {
                quarantine(&mut q, reason, v[i].dup());
                assert(quarantined_views(q@).len() == q@.len());
            },
            ReadOutcome::Add(x) => {
                proof {
                    lemma_reading_push(before, x@);
                }
                c.push(x);
                assert(conns(c@) =~= before.push(x@));
                proof {
                    if plain {
                        assert(plain_item(all[i as int]));
                        assert(read_as_plain(all[i as int], x@, before.len()));
                    }
                }
            },
        }
        i += 1;
    }
    assert(all.take(i as int) =~= all);
    (q, c)
}

fn any_local(v: &Vec<Json>) -> (r: bool)
    ensures
        r == lists_local(items(v@)),
{
    let ghost all = items(v@);
    let mut i: usize = 0;
    while i < v.len()
        invariant
            i <= v@.len(),
            all == items(v@),
            forall|j: int|
                0 <= j < i ==> str_field_or_empty(#[trigger] all[j], "kind"@) != "local"@,
        decreases v@.len() - i,
    {
        assert(all[i as int] == v@[i as int]@);
        if same(&v[i].get_str_or_empty("kind"), "local") {
            assert(str_field_or_empty(all[i as int], "kind"@) == "local"@);
            return true;
        }
        i += 1;
    }
    false
}

/// What the stored entries are read behind.
fn read_first(v: &Vec<Json>) -> (r: Vec<RegistryConnection>)
    ensures
        conns(r@) == first_entries(items(v@)),
        reading_ok(conns(r@)),
{
    let mut first: Vec<RegistryConnection> = Vec::new();
    proof {
        lemma_kinds_differ();
    }
    if any_local(v) {
        assert(conns(first@) =~= Seq::<ConnV>::empty());
    } else {
        first.push(local_entry("This device"));
        assert(conns(first@) =~= seq![local_conn("This device"@)]);
        assert(conns(first@)[0].kind == "local"@);
    }
    first
}

fn json_list(j: Option<&Json>) -> (r: Vec<Json>)
    ensures
        items(r@) == list_of(
            match j {
                Some(x) => Some(x@),
                None => None,
            },
        ),
{
    broadcast use crate::json::group_json_views;

    match j {
        Some(Json::Arr(v)) => crate::json::dup_items(v),
        _ => {
            let none: Vec<Json> = Vec::new();
            assert(items(none@) =~= Seq::<JsonV>::empty());
            none
        },
    }
}

/// Makes a registry of any JSON value. The result can always be worked with:
/// it is sound, and its entries have ids and names of their own. Where nothing
/// more can be taken off its entries, writing and reading it again gives it back;
/// so it is where the entries that were read are plain.
pub fn normalize_registry(raw: &Json) -> (r: ConnectionRegistry)
    ensures
        r@ == normalized(raw@),
        sound(r@),
        distinct(ids_of(r@.connections)),
        distinct(keys_of(labels_of(r@.connections))),
        taken_apart(r@.connections) ==> normalized(registry_json(r@)) == r@,
        plain_entries(raw@) ==> normalized(registry_json(r@)) == r@,
{
    broadcast use crate::json::group_json_views;

    let r = read_registry(raw);
    proof {
        if taken_apart(r@.connections) {
            law_second_load_changes_nothing(raw@);
        }
    }
    r
}

fn read_registry(raw: &Json) -> (r: ConnectionRegistry)
    ensures
        r@ == normalized(raw@),
        sound(r@),
        distinct(ids_of(r@.connections)),
        distinct(keys_of(labels_of(r@.connections))),
        plain_entries(raw@) ==> taken_apart(r@.connections),
{
    broadcast use crate::json::group_json_views;

    proof {
        reveal_strlit("This device");
        lemma_trim_fixed("This device"@, Class::White);
        lemma_kinds_differ();
    }
    if !raw.is_object() {
        let first = ConnectionRegistry::initial();
        proof {
            assert(first@.connections[0].kind == "local"@);
            assert(first@.connections[0].id == "local"@);
            lemma_kinds_differ();
        }
        return first;
    }
    let entries = json_list(raw.get("connections"));
    let kept = json_list(raw.get("quarantined"));
    let first = read_first(&entries);
    let ghost l = loaded(raw@);
    let (q, c) = read_all(carry_quarantined(&kept), first, &entries);
    assert(conns(c@) == l.connections);
    proof {
        lemma_first_local(raw@);
        lemma_local_has_id(l.connections);
    }
    let want = trim(&raw.get_str_or_empty("primary"));
    let primary = if holds_id(&c, &want) {
        want
    } else {
        "local".to_string()
    };
    let want = trim(&raw.get_str_or_empty("lastUsed"));
    let last_used = if holds_id(&c, &want) {
        want
    } else {
        primary.clone()
    };
    let launch_mode = match raw.get_str("launchMode") {
        Some(m) => if same(&m, "last-used") {
            "last-used".to_string()
        } else {
            "primary".to_string()
        },
        None => "primary".to_string(),
    };
    assert(quarantined_views(q@).len() == q@.len());
    let quarantined = if q.len() > 0 {
        Some(q)
    } else {
        None
    };
    ConnectionRegistry {
        version: REGISTRY_VERSION,
        primary,
        launch_mode,
        last_used,
        connections: c,
        quarantined,
    }
}

} // verus!
