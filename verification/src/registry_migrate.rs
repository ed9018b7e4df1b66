//! Bringing a registry in line with the older single-connection file: the first
//! import, the healing of a registry that never learned of the saved route, and
//! the choice between the two when a registry is read.

use crate::connection_config::{
    base_url_of, normalize_remote_base_url, profiles_view, BlockV, ConfigV, ConnectionConfigFile,
    RemoteBlock,
};
use crate::json::{Json, JsonV};
use crate::registry::{
    auth_mode_of, bare_conn, connection_id_for_label, conns, default_registry, has_id,
    host_label_from_base_url, host_label_of, id_for_label, ids_of, labels_of, list_ids, list_labels,
    mode_is_remote_like, nonblank, norm_auth_mode, opt_nonblank, remote_like, trim_nonblank,
    unique_label, unique_label_of, ConnV, ConnectionRegistry, RegistryConnection, RegistryV,
};
use crate::registry_load::{
    distinct, has_local, lemma_kinds_differ, normalize_registry, normalized, sound, usable_entry,
};
use crate::text::{dec, decimal, opt_text, same, trim, trimmed};
use vstd::prelude::*;

verus! {

// ---------------------------------------------------------------------------
// One imported entry
// ---------------------------------------------------------------------------

pub open spec fn remote_kind(mode: Seq<char>) -> Seq<char> {
    if mode == "cloud"@ {
        "cloud"@
    } else {
        "remote"@
    }
}

/// The name of a gateway whose address suggests none.
pub open spec fn gateway_name(url: Seq<char>, kind: Seq<char>) -> Seq<char> {
    match host_label_of(url) {
        Some(h) => h,
        None => if kind == "cloud"@ {
            "Hermes Cloud"@
        } else {
            "Remote gateway"@
        },
    }
}

/// The entry for a gateway, with a name and an id that no other entry has.
pub open spec fn gateway_entry(
    c: Seq<ConnV>,
    url: Seq<char>,
    kind: Seq<char>,
    block: BlockV,
) -> ConnV {
    let label = unique_label_of(gateway_name(url, kind), labels_of(c));
    ConnV {
        url: Some(url),
        auth_mode: Some(auth_mode_of(Some(block.auth_mode))),
        token: match opt_nonblank(block.token) {
            Some(t) => Some(JsonV::Str(t)),
            None => None,
        },
        org: if kind == "cloud"@ {
            nonblank(block.org)
        } else {
            None
        },
        ..bare_conn(id_for_label(label, ids_of(c)), kind, label)
    }
}

fn remote_kind_for(mode: &str) -> (r: String)
    ensures
        r@ == remote_kind(mode@),
{
    if same(mode, "cloud") {
        "cloud".to_string()
    } else {
        "remote".to_string()
    }
}

fn make_gateway_entry(
    c: &Vec<RegistryConnection>,
    url: &str,
    kind: &str,
    block: &RemoteBlock,
) -> (r: RegistryConnection)
    ensures
        r@ == gateway_entry(conns(c@), url@, kind@, block@),
        !ids_of(conns(c@)).contains(r@.id),
        r@.id != "local"@,
{
    let name = match host_label_from_base_url(url) {
        Some(h) => h,
        None => if same(kind, "cloud") {
            "Hermes Cloud".to_string()
        } else {
            "Remote gateway".to_string()
        },
    };
    let label = unique_label(&name, &list_labels(c));
    let id = connection_id_for_label(&label, &list_ids(c));
    let mut entry = RegistryConnection::bare(id, kind, label);
    entry.url = Some(url.to_string());
    entry.auth_mode = Some(norm_auth_mode(&Some(block.auth_mode.clone())));
    entry.token = match &block.token {
        Some(t) => match trim_nonblank(t) {
            Some(t) => Some(Json::Str(t)),
            None => None,
        },
        None => None,
    };
    if same(kind, "cloud") {
        entry.org = trim_nonblank(&block.org);
    }
    entry
}

// ---------------------------------------------------------------------------
// The first import
// ---------------------------------------------------------------------------

pub open spec fn has_url(c: Seq<ConnV>, url: Seq<char>) -> bool {
    exists|i: int| 0 <= i < c.len() && (#[trigger] c[i]).url == Some(url)
}

/// The entries with the gateway of a block added, unless its address is blank
/// or already there.
pub open spec fn with_gateway(c: Seq<ConnV>, mode: Seq<char>, block: BlockV) -> Seq<ConnV> {
    let url = trimmed(block.url);
    if url.len() == 0 || has_url(c, url) {
        c
    } else {
        c.push(gateway_entry(c, url, remote_kind(mode), block))
    }
}

pub open spec fn with_profiles(c: Seq<ConnV>, p: Seq<(Seq<char>, BlockV)>) -> Seq<ConnV>
    decreases p.len(),
{
    if p.len() == 0 {
        c
    } else {
        let rest = with_profiles(c, p.drop_last());
        let block = p.last().1;
        if remote_like(block.mode) {
            with_gateway(rest, block.mode, block)
        } else {
            rest
        }
    }
}

/// The registry that the older file amounts to: the local entry, the global
/// gateway, which becomes the primary one, and those of the profiles.
pub open spec fn migrated(config: ConfigV) -> RegistryV {
    let first = default_registry().connections;
    let global = if remote_like(config.mode) {
        with_gateway(first, config.mode, config.remote)
    } else {
        first
    };
    let primary = if global.len() > first.len() {
        global[first.len() as int].id
    } else {
        "local"@
    };
    RegistryV {
        primary,
        last_used: primary,
        connections: with_profiles(global, config.profiles),
        ..default_registry()
    }
}

/// Entries that start with the local one, and of which no two share an id.
spec fn growing(c: Seq<ConnV>) -> bool {
    &&& c.len() > 0 && c[0].kind == "local"@
    &&& forall|i: int| 0 <= i < c.len() ==> usable_entry(#[trigger] c[i])
    &&& distinct(ids_of(c))
}

proof fn lemma_growing_push(c: Seq<ConnV>, x: ConnV)
    requires
        growing(c),
        usable_entry(x),
        !ids_of(c).contains(x.id),
    ensures
        growing(c.push(x)),
{
    let d = c.push(x);
    assert forall|i: int, j: int| 0 <= i < j < ids_of(d).len() implies #[trigger] ids_of(d)[i]
        != #[trigger] ids_of(d)[j] by {
        assert(ids_of(d)[i] == ids_of(c)[i]);
        if j < c.len() {
            assert(ids_of(d)[j] == ids_of(c)[j]);
        } else {
            assert(ids_of(c).contains(ids_of(c)[i]));
        }
    }
}

fn holds_url(v: &Vec<RegistryConnection>, url: &str) -> (r: bool)
    ensures
        r == has_url(conns(v@), url@),
{
    let ghost c = conns(v@);
    let mut i: usize = 0;
    while i < v.len()
        invariant
            i <= v@.len(),
            c == conns(v@),
            forall|j: int| 0 <= j < i ==> (#[trigger] c[j]).url != Some(url@),
        decreases v@.len() - i,
    {
        assert(c[i as int] == v@[i as int]@);
        if let Some(u) = &v[i].url {
            if same(u, url) {
                assert(c[i as int].url == Some(url@));
                return true;
            }
        }
        i += 1;
    }
    false
}

fn add_gateway(c: &mut Vec<RegistryConnection>, mode: &str, block: &RemoteBlock)
    requires
        growing(conns(old(c)@)),
    ensures
        conns(final(c)@) == with_gateway(conns(old(c)@), mode@, block@),
        growing(conns(final(c)@)),
{
    let url = trim(&block.url);
    if url.as_str().is_empty() || holds_url(c, &url) {
        return;
    }
    let ghost before = conns(c@);
    let entry = make_gateway_entry(c, &url, &remote_kind_for(mode), block);
    proof {
        lemma_kinds_differ();
        lemma_growing_push(before, entry@);
    }
    c.push(entry);
    assert(conns(c@) =~= before.push(entry@));
}

/// Imports the older file. The result is sound, and no two of its entries share
/// an id.
pub fn migrate_v1_to_registry(config: &ConnectionConfigFile) -> (r: ConnectionRegistry)
    ensures
        r@ == migrated(config@),
        sound(r@),
        distinct(ids_of(r@.connections)),
{
    let mut registry = ConnectionRegistry::initial();
    let ghost first = default_registry().connections;
    proof {
        lemma_kinds_differ();
        assert(first[0].kind == "local"@);
        assert(growing(first));
    }
    let mut c = registry.connections;
    let before: usize = c.len();
    if mode_is_remote_like(&config.mode) {
        add_gateway(&mut c, &config.mode, &config.remote);
    }
    let ghost global = conns(c@);
    let primary = if c.len() > before {
        assert(global[before as int] == c@[before as int]@);
        c[before].id.clone()
    } else {
        "local".to_string()
    };
    let ghost p = profiles_view(config.profiles@);
    let mut i: usize = 0;
    assert(p.take(0) =~= Seq::<(Seq<char>, BlockV)>::empty());
    proof {
        assert(global[0].id == "local"@);
        if global.len() > before {
            assert(has_id(global, primary@));
        } else {
            assert(has_id(global, "local"@));
        }
    }
    while i < config.profiles.len()
        invariant
            i <= config.profiles@.len(),
            p == profiles_view(config.profiles@),
            conns(c@) == with_profiles(global, p.take(i as int)),
            growing(conns(c@)),
            has_id(conns(c@), primary@),
        decreases config.profiles@.len() - i,
    {
        assert(p.take(i + 1).drop_last() =~= p.take(i as int));
        assert(p.take(i + 1).last() == (config.profiles@[i as int].0@, config.profiles@[i as int].1@));
        let ghost so_far = conns(c@);
        let block = &config.profiles[i].1;
        if mode_is_remote_like(&block.mode) {
            add_gateway(&mut c, &block.mode, block);
            proof {
                let k = choose|k: int| 0 <= k < so_far.len() && (#[trigger] so_far[k]).id == primary@;
                assert(conns(c@)[k] == so_far[k]);
            }
        }
        i += 1;
    }
    assert(p.take(i as int) =~= p);
    assert(has_local(conns(c@))) by {
        assert(conns(c@)[0].kind == "local"@);
    }
    registry.connections = c;
    registry.last_used = primary.clone();
    registry.primary = primary;
    registry
}

// ---------------------------------------------------------------------------
// Drift
// ---------------------------------------------------------------------------

/// Whether a gateway of the registry has this base address.
pub open spec fn registered(c: Seq<ConnV>, base: Seq<char>) -> bool {
    exists|i: int|
        0 <= i < c.len() && remote_like((#[trigger] c[i]).kind) && c[i].url is Some && base_url_of(
            c[i].url->0,
        ) == base
}

/// The registry with the saved route added as its primary entry; `None` when
/// there is no such route, or an entry already has it.
pub open spec fn healed(config: ConfigV, r: RegistryV) -> Option<RegistryV> {
    let url = base_url_of(config.remote.url);
    if !remote_like(config.mode) || trimmed(url).len() == 0 || registered(r.connections, url) {
        None
    } else {
        let entry = gateway_entry(r.connections, url, remote_kind(config.mode), config.remote);
        Some(
            RegistryV {
                primary: entry.id,
                last_used: entry.id,
                connections: r.connections.push(entry),
                ..r
            },
        )
    }
}

pub open spec fn opt_registry(o: Option<ConnectionRegistry>) -> Option<RegistryV> {
    match o {
        Some(r) => Some(r@),
        None => None,
    }
}

fn is_registered(v: &Vec<RegistryConnection>, base: &str) -> (r: bool)
    ensures
        r == registered(conns(v@), base@),
{
    let ghost c = conns(v@);
    let mut i: usize = 0;
    while i < v.len()
        invariant
            i <= v@.len(),
            c == conns(v@),
            forall|j: int|
                0 <= j < i ==> !(remote_like((#[trigger] c[j]).kind) && c[j].url is Some
                    && base_url_of(c[j].url->0) == base@),
        decreases v@.len() - i,
    {
        assert(c[i as int] == v@[i as int]@);
        if mode_is_remote_like(&v[i].kind) {
            if let Some(u) = &v[i].url {
                if same(&normalize_remote_base_url(u), base) {
                    assert(remote_like(c[i as int].kind));
                    return true;
                }
            }
        }
        i += 1;
    }
    false
}

/// Adds the saved route to a registry that does not have it. A sound registry
/// stays sound, and distinct ids stay distinct.
pub fn reconcile_registry_drift(
    config: &ConnectionConfigFile,
    registry: &ConnectionRegistry,
) -> (r: Option<ConnectionRegistry>)
    ensures
        opt_registry(r) == healed(config@, registry@),
        r is Some && sound(registry@) ==> sound(r->0@),
        r is Some && distinct(ids_of(registry@.connections)) ==> distinct(
            ids_of(r->0@.connections),
        ),
{
    if !mode_is_remote_like(&config.mode) {
        return None;
    }
    let url = normalize_remote_base_url(&config.remote.url);
    let shown = trim(&url);
    if shown.as_str().is_empty() || is_registered(&registry.connections, &url) {
        return None;
    }
    proof {
        crate::text::lemma_trim_ends(url@, crate::text::Class::White);
    }
    let entry = make_gateway_entry(
        &registry.connections,
        &url,
        &remote_kind_for(&config.mode),
        &config.remote,
    );
    let mut next = registry.dup();
    let ghost before = conns(next.connections@);
    let ghost e = entry@;
    next.primary = entry.id.clone();
    next.last_used = entry.id.clone();
    next.connections.push(entry);
    assert(conns(next.connections@) =~= before.push(e));
    proof {
        lemma_kinds_differ();
        let d = before.push(e);
        assert(d[before.len() as int].id == e.id);
        if sound(registry@) {
            let k = choose|k: int| 0 <= k < before.len() && (#[trigger] before[k]).kind == "local"@;
            assert(d[k].kind == "local"@);
            assert forall|i: int| 0 <= i < d.len() implies usable_entry(#[trigger] d[i]) by {
                if i < before.len() {
                    assert(d[i] == before[i]);
                }
            }
        }
        if distinct(ids_of(before)) {
            assert forall|i: int, j: int| 0 <= i < j < ids_of(d).len() implies #[trigger] ids_of(
                d,
            )[i] != #[trigger] ids_of(d)[j] by {
                assert(ids_of(d)[i] == ids_of(before)[i]);
                if j < before.len() {
                    assert(ids_of(d)[j] == ids_of(before)[j]);
                } else {
                    assert(ids_of(before).contains(ids_of(before)[i]));
                }
            }
        }
    }
    Some(next)
}

/// A registry is healed at most once: what healing added is found the next time,
/// unless its address does not stand for itself.
pub proof fn law_healing_happens_once(config: ConfigV, r: RegistryV)
    requires
        base_url_of(base_url_of(config.remote.url)) == base_url_of(config.remote.url),
    ensures
        match healed(config, r) {
            Some(next) => healed(config, next) is None,
            None => true,
        },
{
    if let Some(next) = healed(config, r) {
        let n = r.connections.len() as int;
        assert(remote_like(next.connections[n].kind));
        assert(next.connections[n].url == Some(base_url_of(config.remote.url)));
    }
}

// ---------------------------------------------------------------------------
// Reading
// ---------------------------------------------------------------------------

/// What the registry file holds.
pub enum StoredFile {
    Missing,
    /// It is there, but cannot be read as JSON.
    Corrupt,
    Parsed(Json),
}

/// A registry that was read, and what has to be done about the file.
pub struct Resolved {
    pub registry: ConnectionRegistry,
    /// The registry is new or changed, and has to be written.
    pub write: bool,
    /// The file has to be copied aside first.
    pub preserve: bool,
}

/// The registry that a file stands for, and whether it differs from it.
pub open spec fn resolved(file: StoredFile, config: ConfigV) -> (RegistryV, bool) {
    match file {
        StoredFile::Missing => (migrated(config), true),
        _ => {
            let base = match file {
                StoredFile::Parsed(j) => normalized(j@),
                _ => default_registry(),
            };
            match healed(config, base) {
                Some(h) => (h, true),
                None => (base, false),
            }
        },
    }
}

/// Reads a registry: a missing file is imported from the older one, a corrupt
/// one counts as empty, and drift is healed. The result is always sound.
pub fn resolve_registry(file: StoredFile, config: &ConnectionConfigFile) -> (r: Resolved)
    ensures
        (r.registry@, r.write) == resolved(file, config@),
        r.preserve == (file is Corrupt),
        sound(r.registry@),
{
    let (base, preserve) = match file {
        StoredFile::Missing => {
            return Resolved {
                registry: migrate_v1_to_registry(config),
                write: true,
                preserve: false,
            };
        },
        StoredFile::Corrupt => (normalize_registry(&Json::Null), true),
        StoredFile::Parsed(j) => (normalize_registry(&j), false),
    };
    match reconcile_registry_drift(config, &base) {
        Some(h) => Resolved { registry: h, write: true, preserve },
        None => Resolved { registry: base, write: false, preserve },
    }
}

/// The extension under which the text of a corrupt file is kept, by the time in
/// milliseconds; a blank file is not worth keeping.
pub open spec fn sidecar_of(raw: Seq<char>, stamp: nat) -> Option<Seq<char>> {
    if trimmed(raw).len() == 0 {
        None
    } else {
        Some("json.corrupt-"@ + dec(stamp))
    }
}

pub fn corrupt_sidecar(raw: &str, stamp: u128) -> (r: Option<String>)
    ensures
        opt_text(r) == sidecar_of(raw@, stamp as nat),
{
    let shown = trim(raw);
    if shown.as_str().is_empty() {
        return None;
    }
    let mut out = "json.corrupt-".to_string();
    out.append(&decimal(stamp));
    Some(out)
}

/// Whether a cached registry may be used: it was read at this modification time.
pub open spec fn still_current(cached_at: Option<Option<u128>>, modified: Option<u128>) -> bool {
    cached_at == Some(modified)
}

pub fn cache_is_current(cached_at: &Option<Option<u128>>, modified: &Option<u128>) -> (r: bool)
    ensures
        r == still_current(*cached_at, *modified),
{
    match cached_at {
        Some(Some(a)) => match modified {
            Some(b) => *a == *b,
            None => false,
        },
        Some(None) => modified.is_none(),
        None => false,
    }
}

} // verus!
