//! The registry of connections: its data, the names and ids of its entries,
//! and the address of an SSH host.

use crate::json::{dup_fields, fields, find_field, lookup, Fields, Json, JsonV};
use crate::outside::{
    ascii_text, digits_only, lowercase, parse_url, spaced, to_lowercase, url_of, UrlParts, UrlV,
};
use crate::text::{
    after_prefix, alnum, ascii_lower, before_suffix, chars_of, copy_opt, count_char, count_of, dec,
    decimal, digit, find_char, first_chars, in_class, index_of, is_alnum, is_digit, is_lower_letter,
    lemma_dec_injective, lemma_dec_value, lemma_trim_end, lemma_trim_ends, lemma_trim_fixed,
    lemma_trim_idempotent, lemma_trim_start, list_has, lower_letter, opt_text, or_empty, parse_i64,
    parse_int_of, same, starts_with, strip_prefix, strip_suffix, take_chars, text_range, texts,
    trim, trim_class, trim_of, trim_start_of, trimmed, Class,
};
use vstd::prelude::*;

verus! {

// ---------------------------------------------------------------------------
// Data
// ---------------------------------------------------------------------------

pub const REGISTRY_VERSION: u32 = 2;

/// One registered source of agents.
pub struct RegistryConnection {
    pub id: String,
    /// `cloud`, `local`, `remote` or `ssh`.
    pub kind: String,
    pub label: String,
    pub url: Option<String>,
    pub auth_mode: Option<String>,
    /// A plain string, or an envelope that is carried along unread.
    pub token: Option<Json>,
    /// Extra headers, by name.
    pub headers: Option<Vec<(String, Json)>>,
    pub org: Option<String>,
    pub host: Option<String>,
    pub user: Option<String>,
    pub port: Option<i64>,
    pub key_path: Option<String>,
    pub remote_hermes_path: Option<String>,
    pub remote_profile: Option<String>,
}

#[verifier::ext_equal]
pub struct ConnV {
    pub id: Seq<char>,
    pub kind: Seq<char>,
    pub label: Seq<char>,
    pub url: Option<Seq<char>>,
    pub auth_mode: Option<Seq<char>>,
    pub token: Option<JsonV>,
    pub headers: Option<Fields>,
    pub org: Option<Seq<char>>,
    pub host: Option<Seq<char>>,
    pub user: Option<Seq<char>>,
    pub port: Option<i64>,
    pub key_path: Option<Seq<char>>,
    pub remote_hermes_path: Option<Seq<char>>,
    pub remote_profile: Option<Seq<char>>,
}

pub open spec fn opt_json(o: Option<Json>) -> Option<JsonV> {
    match o {
        Some(j) => Some(j@),
        None => None,
    }
}

pub open spec fn opt_fields(o: Option<Vec<(String, Json)>>) -> Option<Fields> {
    match o {
        Some(v) => Some(fields(v@)),
        None => None,
    }
}

impl View for RegistryConnection {
    type V = ConnV;

    open spec fn view(&self) -> ConnV {
        ConnV {
            id: self.id@,
            kind: self.kind@,
            label: self.label@,
            url: opt_text(self.url),
            auth_mode: opt_text(self.auth_mode),
            token: opt_json(self.token),
            headers: opt_fields(self.headers),
            org: opt_text(self.org),
            host: opt_text(self.host),
            user: opt_text(self.user),
            port: self.port,
            key_path: opt_text(self.key_path),
            remote_hermes_path: opt_text(self.remote_hermes_path),
            remote_profile: opt_text(self.remote_profile),
        }
    }
}

/// An entry with nothing but its id, kind and label.
pub open spec fn bare_conn(id: Seq<char>, kind: Seq<char>, label: Seq<char>) -> ConnV {
    ConnV {
        id,
        kind,
        label,
        url: None,
        auth_mode: None,
        token: None,
        headers: None,
        org: None,
        host: None,
        user: None,
        port: None,
        key_path: None,
        remote_hermes_path: None,
        remote_profile: None,
    }
}

pub open spec fn local_conn(label: Seq<char>) -> ConnV {
    bare_conn("local"@, "local"@, label)
}

pub open spec fn conns(v: Seq<RegistryConnection>) -> Seq<ConnV> {
    v.map_values(|c: RegistryConnection| c@)
}

pub fn copy_json(o: &Option<Json>) -> (r: Option<Json>)
    ensures
        opt_json(r) == opt_json(*o),
{
    match o {
        Some(j) => Some(j.dup()),
        None => None,
    }
}

pub fn copy_headers(o: &Option<Vec<(String, Json)>>) -> (r: Option<Vec<(String, Json)>>)
    ensures
        opt_fields(r) == opt_fields(*o),
{
    match o {
        Some(v) => Some(dup_fields(v)),
        None => None,
    }
}

impl RegistryConnection {
    pub fn bare(id: String, kind: &str, label: String) -> (r: RegistryConnection)
        ensures
            r@ == bare_conn(id@, kind@, label@),
    {
        RegistryConnection {
            id,
            kind: kind.to_string(),
            label,
            url: None,
            auth_mode: None,
            token: None,
            headers: None,
            org: None,
            host: None,
            user: None,
            port: None,
            key_path: None,
            remote_hermes_path: None,
            remote_profile: None,
        }
    }

    pub fn dup(&self) -> (r: RegistryConnection)
        ensures
            r@ == self@,
    {
        RegistryConnection {
            id: self.id.clone(),
            kind: self.kind.clone(),
            label: self.label.clone(),
            url: copy_opt(&self.url),
            auth_mode: copy_opt(&self.auth_mode),
            token: copy_json(&self.token),
            headers: copy_headers(&self.headers),
            org: copy_opt(&self.org),
            host: copy_opt(&self.host),
            user: copy_opt(&self.user),
            port: self.port,
            key_path: copy_opt(&self.key_path),
            remote_hermes_path: copy_opt(&self.remote_hermes_path),
            remote_profile: copy_opt(&self.remote_profile),
        }
    }
}

pub fn local_entry(label: &str) -> (r: RegistryConnection)
    ensures
        r@ == local_conn(label@),
{
    RegistryConnection::bare("local".to_string(), "local", label.to_string())
}

/// An entry that could not be used, kept as it was found.
pub struct QuarantinedEntry {
    pub reason: String,
    pub entry: Json,
}

#[verifier::ext_equal]
pub struct QuarantinedV {
    pub reason: Seq<char>,
    pub entry: JsonV,
}

impl View for QuarantinedEntry {
    type V = QuarantinedV;

    open spec fn view(&self) -> QuarantinedV {
        QuarantinedV { reason: self.reason@, entry: self.entry@ }
    }
}

pub open spec fn quarantined_views(v: Seq<QuarantinedEntry>) -> Seq<QuarantinedV> {
    v.map_values(|q: QuarantinedEntry| q@)
}

/// The whole registry.
pub struct ConnectionRegistry {
    pub version: u32,
    /// The id of the connection that windows open on.
    pub primary: String,
    /// `primary` or `last-used`.
    pub launch_mode: String,
    pub last_used: String,
    pub connections: Vec<RegistryConnection>,
    pub quarantined: Option<Vec<QuarantinedEntry>>,
}

#[verifier::ext_equal]
pub struct RegistryV {
    pub version: u32,
    pub primary: Seq<char>,
    pub launch_mode: Seq<char>,
    pub last_used: Seq<char>,
    pub connections: Seq<ConnV>,
    pub quarantined: Option<Seq<QuarantinedV>>,
}

impl View for ConnectionRegistry {
    type V = RegistryV;

    open spec fn view(&self) -> RegistryV {
        RegistryV {
            version: self.version,
            primary: self.primary@,
            launch_mode: self.launch_mode@,
            last_used: self.last_used@,
            connections: conns(self.connections@),
            quarantined: match self.quarantined {
                Some(v) => Some(quarantined_views(v@)),
                None => None,
            },
        }
    }
}

/// The registry of a fresh installation: the local connection alone.
pub open spec fn default_registry() -> RegistryV {
    RegistryV {
        version: 2,
        primary: "local"@,
        launch_mode: "primary"@,
        last_used: "local"@,
        connections: seq![local_conn("This device"@)],
        quarantined: None,
    }
}

pub fn copy_quarantined(v: &Vec<QuarantinedEntry>) -> (r: Vec<QuarantinedEntry>)
    ensures
        quarantined_views(r@) == quarantined_views(v@),
{
    let mut out: Vec<QuarantinedEntry> = Vec::new();
    let ghost all = quarantined_views(v@);
    let mut i: usize = 0;
    while i < v.len()
        invariant
            i <= v@.len(),
            all == quarantined_views(v@),
            quarantined_views(out@) == all.take(i as int),
        decreases v@.len() - i,
    {
        let ghost before = quarantined_views(out@);
        let q = QuarantinedEntry { reason: v[i].reason.clone(), entry: v[i].entry.dup() };
        out.push(q);
        assert(quarantined_views(out@) =~= before.push(q@));
        assert(all.take(i + 1) =~= all.take(i as int).push(all[i as int]));
        i += 1;
    }
    assert(all.take(i as int) =~= all);
    out
}

impl ConnectionRegistry {
    pub fn initial() -> (r: ConnectionRegistry)
        ensures
            r@ == default_registry(),
    {
        let mut connections: Vec<RegistryConnection> = Vec::new();
        connections.push(local_entry("This device"));
        assert(conns(connections@) =~= seq![local_conn("This device"@)]);
        ConnectionRegistry {
            version: REGISTRY_VERSION,
            primary: "local".to_string(),
            launch_mode: "primary".to_string(),
            last_used: "local".to_string(),
            connections,
            quarantined: None,
        }
    }

    pub fn dup(&self) -> (r: ConnectionRegistry)
        ensures
            r@ == self@,
    {
        let mut connections: Vec<RegistryConnection> = Vec::new();
        let ghost all = conns(self.connections@);
        let mut i: usize = 0;
        while i < self.connections.len()
            invariant
                i <= self.connections@.len(),
                all == conns(self.connections@),
                conns(connections@) == all.take(i as int),
            decreases self.connections@.len() - i,
        {
            let ghost before = conns(connections@);
            let c = self.connections[i].dup();
            connections.push(c);
            assert(conns(connections@) =~= before.push(c@));
            assert(all.take(i + 1) =~= all.take(i as int).push(all[i as int]));
            i += 1;
        }
        assert(all.take(i as int) =~= all);
        let quarantined = match &self.quarantined {
            Some(v) => Some(copy_quarantined(v)),
            None => None,
        };
        ConnectionRegistry {
            version: self.version,
            primary: self.primary.clone(),
            launch_mode: self.launch_mode.clone(),
            last_used: self.last_used.clone(),
            connections,
            quarantined,
        }
    }
}

// ---------------------------------------------------------------------------
// Looking up
// ---------------------------------------------------------------------------

/// The index of the first entry with an id.
pub open spec fn position_from(c: Seq<ConnV>, id: Seq<char>, i: int) -> Option<int>
    decreases c.len() - i,
{
    if i < 0 || i >= c.len() {
        None
    } else if c[i].id == id {
        Some(i)
    } else {
        position_from(c, id, i + 1)
    }
}

pub open spec fn position_of(c: Seq<ConnV>, id: Seq<char>) -> Option<int> {
    position_from(c, id, 0)
}

pub open spec fn has_id(c: Seq<ConnV>, id: Seq<char>) -> bool {
    exists|i: int| 0 <= i < c.len() && (#[trigger] c[i]).id == id
}

pub proof fn lemma_position(c: Seq<ConnV>, id: Seq<char>, i: int)
    requires
        0 <= i <= c.len(),
    ensures
        match position_from(c, id, i) {
            Some(k) => i <= k < c.len() && c[k].id == id && forall|j: int|
                i <= j < k ==> (#[trigger] c[j]).id != id,
            None => forall|j: int| i <= j < c.len() ==> (#[trigger] c[j]).id != id,
        },
    decreases c.len() - i,
{
    if i < c.len() && c[i].id != id {
        lemma_position(c, id, i + 1);
    }
}

pub fn find_position(v: &Vec<RegistryConnection>, id: &str) -> (r: Option<usize>)
    ensures
        match r {
            Some(i) => position_of(conns(v@), id@) == Some(i as int) && i < v@.len(),
            None => position_of(conns(v@), id@) is None,
        },
{
    let ghost c = conns(v@);
    let mut i: usize = 0;
    while i < v.len()
        invariant
            i <= v@.len(),
            c == conns(v@),
            position_of(c, id@) == position_from(c, id@, i as int),
        decreases v@.len() - i,
    {
        assert(c[i as int] == v@[i as int]@);
        if same(&v[i].id, id) {
            return Some(i);
        }
        i += 1;
    }
    None
}

/// Whether an entry has the id.
pub fn holds_id(v: &Vec<RegistryConnection>, id: &str) -> (r: bool)
    ensures
        r == has_id(conns(v@), id@),
{
    proof {
        lemma_position(conns(v@), id@, 0);
    }
    match find_position(v, id) {
        Some(i) => {
            assert(conns(v@)[i as int].id == id@);
            true
        },
        None => false,
    }
}

pub open spec fn ids_of(c: Seq<ConnV>) -> Seq<Seq<char>> {
    c.map_values(|x: ConnV| x.id)
}

pub open spec fn labels_of(c: Seq<ConnV>) -> Seq<Seq<char>> {
    c.map_values(|x: ConnV| x.label)
}

pub fn list_ids(v: &Vec<RegistryConnection>) -> (r: Vec<String>)
    ensures
        texts(r@) == ids_of(conns(v@)),
{
    let mut out: Vec<String> = Vec::new();
    let ghost all = ids_of(conns(v@));
    let mut i: usize = 0;
    while i < v.len()
        invariant
            i <= v@.len(),
            all == ids_of(conns(v@)),
            texts(out@) == all.take(i as int),
        decreases v@.len() - i,
    {
        let ghost before = texts(out@);
        let s = v[i].id.clone();
        out.push(s);
        assert(texts(out@) =~= before.push(s@));
        assert(all.take(i + 1) =~= all.take(i as int).push(all[i as int]));
        i += 1;
    }
    assert(all.take(i as int) =~= all);
    out
}

pub fn list_labels(v: &Vec<RegistryConnection>) -> (r: Vec<String>)
    ensures
        texts(r@) == labels_of(conns(v@)),
{
    let mut out: Vec<String> = Vec::new();
    let ghost all = labels_of(conns(v@));
    let mut i: usize = 0;
    while i < v.len()
        invariant
            i <= v@.len(),
            all == labels_of(conns(v@)),
            texts(out@) == all.take(i as int),
        decreases v@.len() - i,
    {
        let ghost before = texts(out@);
        let s = v[i].label.clone();
        out.push(s);
        assert(texts(out@) =~= before.push(s@));
        assert(all.take(i + 1) =~= all.take(i as int).push(all[i as int]));
        i += 1;
    }
    assert(all.take(i as int) =~= all);
    out
}

// ---------------------------------------------------------------------------
// Labels
// ---------------------------------------------------------------------------

/// The most characters a name may have.
pub const LABEL_MAX: usize = 64;

/// What two names are compared by.
pub open spec fn label_key_of(label: Seq<char>) -> Seq<char> {
    lowercase(trimmed(label))
}

pub fn label_key(label: &str) -> (r: String)
    ensures
        r@ == label_key_of(label@),
{
    to_lowercase(&trim(label))
}

pub open spec fn keys_of(labels: Seq<Seq<char>>) -> Seq<Seq<char>> {
    labels.map_values(|l: Seq<char>| label_key_of(l))
}

/// A name with room left for a number.
pub open spec fn label_base(candidate: Seq<char>) -> Seq<char> {
    first_chars(trimmed(candidate), 60)
}

/// `n` is the first number from two on that makes the name free.
pub open spec fn first_free(base: Seq<char>, used: Seq<Seq<char>>, n: nat) -> bool {
    &&& n >= 2
    &&& !used.contains(label_key_of(spaced(base, dec(n))))
    &&& forall|m: nat|
        2 <= m < n ==> used.contains(label_key_of(#[trigger] spaced(base, dec(m))))
}

/// The name itself when it is free, else with the first number that makes it so.
pub open spec fn unique_label_of(candidate: Seq<char>, taken: Seq<Seq<char>>) -> Seq<char> {
    let base = label_base(candidate);
    let used = keys_of(taken);
    if base.len() > 0 && !used.contains(label_key_of(base)) {
        base
    } else {
        spaced(base, dec(choose|n: nat| first_free(base, used, n)))
    }
}

proof fn lemma_first_free_unique(base: Seq<char>, used: Seq<Seq<char>>, a: nat, b: nat)
    requires
        first_free(base, used, a),
        first_free(base, used, b),
    ensures
        a == b,
{
    if a < b {
        assert(used.contains(label_key_of(spaced(base, dec(a)))));
    } else if b < a {
        assert(used.contains(label_key_of(spaced(base, dec(b)))));
    }
}

/// More distinct values than a list holds cannot all be in it.
proof fn lemma_pigeonhole(used: Seq<Seq<char>>, f: spec_fn(nat) -> Seq<char>, n: nat)
    requires
        n >= 2,
        forall|m: nat| 2 <= m < n ==> used.contains(#[trigger] f(m)),
        forall|a: nat, b: nat|
            2 <= a < n && 2 <= b < n && a != b ==> #[trigger] f(a) != #[trigger] f(b),
    ensures
        n - 2 <= used.len(),
{
    let tried = Seq::new((n - 2) as nat, |i: int| f((i + 2) as nat));
    assert(tried.no_duplicates());
    tried.unique_seq_to_set();
    used.lemma_cardinality_of_set();
    assert(tried.to_set().subset_of(used.to_set())) by {
        assert forall|x: Seq<char>| tried.to_set().contains(x) implies used.to_set().contains(
            x,
        ) by {
            let i = choose|i: int| 0 <= i < tried.len() && tried[i] == x;
            assert(used.contains(f((i + 2) as nat)));
        }
    }
    vstd::set_lib::lemma_len_subset(tried.to_set(), used.to_set());
}

/// The key of a numbered name, spelled out.
spec fn numbered_key(base: Seq<char>, n: nat) -> Seq<char> {
    if base.len() == 0 {
        dec(n)
    } else {
        spaced(lowercase(base), dec(n))
    }
}

proof fn lemma_numbered_trim(base: Seq<char>, n: nat)
    requires
        base.len() > 0 ==> !in_class(Class::White, base[0]),
    ensures
        trimmed(spaced(base, dec(n))) == if base.len() == 0 {
            dec(n)
        } else {
            spaced(base, dec(n))
        },
        digits_only(dec(n)),
        ascii_text(dec(n)),
        ascii_lower(dec(n)) == dec(n),
{
    lemma_dec_value(n);
    let d = dec(n);
    assert(d.len() > 0);
    assert forall|i: int| 0 <= i < d.len() implies !in_class(Class::White, #[trigger] d[i])
        && crate::text::lower_char(d[i]) == d[i] && (d[i] as u32) < 128 by {
        assert(digit(d[i]));
    }
    assert(ascii_lower(d) =~= d);
    let s = spaced(base, d);
    assert(s.last() == d.last());
    if base.len() == 0 {
        assert(s[0] == ' ');
        assert(s.drop_first() =~= d);
        assert(crate::text::trim_start_of(s, Class::White) == crate::text::trim_start_of(
            d,
            Class::White,
        ));
        assert(crate::text::trim_start_of(d, Class::White) == d);
        assert(crate::text::trim_end_of(d, Class::White) == d);
    } else {
        assert(s[0] == base[0]);
        lemma_trim_fixed(s, Class::White);
    }
}

proof fn lemma_numbered_keys_differ(base: Seq<char>, a: nat, b: nat)
    requires
        numbered_key(base, a) == numbered_key(base, b),
    ensures
        a == b,
{
    if base.len() > 0 {
        let k = lowercase(base).len() + 1;
        assert(dec(a) =~= spaced(lowercase(base), dec(a)).skip(k as int));
        assert(dec(b) =~= spaced(lowercase(base), dec(b)).skip(k as int));
    }
    lemma_dec_injective(a, b);
}

fn list_keys(taken: &Vec<String>) -> (r: Vec<String>)
    ensures
        texts(r@) == keys_of(texts(taken@)),
{
    let mut out: Vec<String> = Vec::new();
    let ghost all = keys_of(texts(taken@));
    let mut i: usize = 0;
    while i < taken.len()
        invariant
            i <= taken@.len(),
            all == keys_of(texts(taken@)),
            texts(out@) == all.take(i as int),
        decreases taken@.len() - i,
    {
        let ghost before = texts(out@);
        let k = label_key(&taken[i]);
        assert(texts(taken@)[i as int] == taken@[i as int]@);
        out.push(k);
        assert(texts(out@) =~= before.push(k@));
        assert(all.take(i + 1) =~= all.take(i as int).push(all[i as int]));
        i += 1;
    }
    assert(all.take(i as int) =~= all);
    out
}

/// A label made of a name: the name itself, or with a number of at most `limit`.
pub open spec fn numbered_within(candidate: Seq<char>, label: Seq<char>, limit: nat) -> bool {
    ||| label == label_base(candidate)
    ||| exists|n: nat| n <= limit && label == #[trigger] spaced(label_base(candidate), dec(n))
}

/// A name of at most 56 characters leaves room for a space and three digits, so
/// with a number below a thousand it stays within the sixty that are kept.
pub proof fn lemma_short_label(candidate: Seq<char>, label: Seq<char>, limit: nat)
    requires
        1 <= trimmed(candidate).len() <= 56,
        numbered_within(candidate, label, limit),
        limit < 1000,
    ensures
        trimmed(label) == label,
        1 <= label.len() <= 60,
{
    let base = label_base(candidate);
    lemma_trim_ends(candidate, Class::White);
    lemma_trim_idempotent(candidate, Class::White);
    assert(base =~= trimmed(candidate));
    if label != base {
        let n = choose|n: nat| n <= limit && label == #[trigger] spaced(base, dec(n));
        reveal_with_fuel(dec, 4);
        assert(dec(n).len() <= 3);
        lemma_numbered_trim(base, n);
    }
}

/// A name that no name of the list is compared equal to. The number that it may
/// take is at most two more than there are names.
pub fn unique_label(candidate: &str, taken: &Vec<String>) -> (r: String)
    ensures
        r@ == unique_label_of(candidate@, texts(taken@)),
        r@.len() > 0,
        !keys_of(texts(taken@)).contains(label_key_of(r@)),
        numbered_within(candidate@, r@, taken@.len() + 2),
{
    let used = list_keys(taken);
    let ghost us = keys_of(texts(taken@));
    let base = take_chars(&trim(candidate), LABEL_MAX - 4);
    let ghost b = label_base(candidate@);
    proof {
        lemma_trim_ends(candidate@, Class::White);
        assert(b.len() > 0 ==> b[0] == trimmed(candidate@)[0]);
    }
    if !base.as_str().is_empty() && !list_has(&used, &label_key(&base)) {
        return base;
    }
    let mut n: u128 = 2;
    let count: usize = used.len();
    let ghost f = |m: nat| numbered_key(b, m);
    loop
        invariant
            base@ == b,
            b == label_base(candidate@),
            b.len() > 0 ==> !in_class(Class::White, b[0]),
            us == keys_of(texts(taken@)),
            texts(used@) == us,
            us.len() == count,
            f == (|m: nat| numbered_key(b, m)),
            2 <= n <= count + 3,
            forall|m: nat| 2 <= m < n ==> us.contains(#[trigger] f(m)),
            forall|m: nat| 2 <= m < n ==> us.contains(label_key_of(#[trigger] spaced(b, dec(m)))),
            !(b.len() > 0 && !us.contains(label_key_of(b))),
        decreases count + 3 - n,
    {
        proof {
            assert forall|x: nat, y: nat| 2 <= x < n && 2 <= y < n && x != y implies #[trigger] f(x)
                != #[trigger] f(y) by {
                if f(x) == f(y) {
                    lemma_numbered_keys_differ(b, x, y);
                }
            }
            lemma_pigeonhole(us, f, n as nat);
            lemma_numbered_trim(b, n as nat);
        }
        let mut suffixed = base.clone();
        suffixed.push(' ');
        suffixed.append(&decimal(n));
        assert(suffixed@ =~= spaced(b, dec(n as nat)));
        let key = label_key_with_number(&suffixed, &base, n);
        if !list_has(&used, &key) {
            proof {
                assert(first_free(b, us, n as nat));
                let c = choose|m: nat| first_free(b, us, m);
                lemma_first_free_unique(b, us, n as nat, c);
                assert(suffixed@ == spaced(b, dec(n as nat)));
            }
            return suffixed;
        }
        assert(f(n as nat) == key@);
        n += 1;
    }
}

/// The key of a numbered name.
fn label_key_with_number(suffixed: &str, base: &str, n: u128) -> (r: String)
    requires
        suffixed@ == spaced(base@, dec(n as nat)),
        base@.len() > 0 ==> !in_class(Class::White, base@[0]),
    ensures
        r@ == label_key_of(suffixed@),
        r@ == numbered_key(base@, n as nat),
{
    proof {
        lemma_numbered_trim(base@, n as nat);
    }
    let t = trim(suffixed);
    to_lowercase(&t)
}

// ---------------------------------------------------------------------------
// Ids
// ---------------------------------------------------------------------------

/// Letters and digits, with one dash for each run of anything else between
/// them; and whether the last character seen was such a dash.
pub open spec fn slug_run(s: Seq<char>) -> (Seq<char>, bool)
    decreases s.len(),
{
    if s.len() == 0 {
        (Seq::empty(), false)
    } else {
        let (slug, dashed) = slug_run(s.drop_last());
        if alnum(s.last()) {
            (slug.push(s.last()), false)
        } else if !dashed && slug.len() > 0 {
            (slug.push('-'), true)
        } else {
            (slug, dashed)
        }
    }
}

/// The id that a name suggests.
pub open spec fn slug_of(label: Seq<char>) -> Seq<char> {
    let slug = first_chars(trim_of(slug_run(lowercase(trimmed(label))).0, Class::One('-')), 48);
    if slug.len() == 0 {
        "connection"@
    } else {
        slug
    }
}

pub fn label_slug(label: &str) -> (r: String)
    ensures
        r@ == slug_of(label@),
{
    let lowered = to_lowercase(&trim(label));
    let v = chars_of(&lowered);
    let mut slug = String::new();
    let mut size: usize = 0;
    let mut dashed = false;
    let mut i: usize = 0;
    assert(slug_run(lowered@.take(0)) == (slug@, dashed));
    while i < v.len()
        invariant
            i <= v@.len(),
            v@ == lowered@,
            size <= i,
            size == slug@.len(),
            slug_run(lowered@.take(i as int)) == (slug@, dashed),
        decreases v@.len() - i,
    {
        assert(lowered@.take(i + 1).drop_last() =~= lowered@.take(i as int));
        if is_alnum(v[i]) {
            slug.push(v[i]);
            size += 1;
            dashed = false;
        } else if !dashed && size > 0 {
            slug.push('-');
            size += 1;
            dashed = true;
        }
        i += 1;
    }
    assert(lowered@.take(i as int) =~= lowered@);
    let cut = take_chars(&trim_class(&slug, Class::One('-')), 48);
    if cut.as_str().is_empty() {
        "connection".to_string()
    } else {
        cut
    }
}

/// A slug with a number.
pub open spec fn numbered_id(base: Seq<char>, n: nat) -> Seq<char> {
    base + seq!['-'] + dec(n)
}

pub open spec fn id_taken(taken: Seq<Seq<char>>, id: Seq<char>) -> bool {
    taken.contains(id) || id == "local"@
}

pub open spec fn first_free_id(base: Seq<char>, taken: Seq<Seq<char>>, n: nat) -> bool {
    &&& n >= 2
    &&& !id_taken(taken, numbered_id(base, n))
    &&& forall|m: nat| 2 <= m < n ==> id_taken(taken, #[trigger] numbered_id(base, m))
}

/// The slug of the name when it is free, else with the first number that makes
/// it so. Never the id of the local connection.
pub open spec fn id_for_label(label: Seq<char>, taken: Seq<Seq<char>>) -> Seq<char> {
    let base = slug_of(label);
    if !id_taken(taken, base) {
        base
    } else {
        numbered_id(base, choose|n: nat| first_free_id(base, taken, n))
    }
}

proof fn lemma_first_free_id_unique(base: Seq<char>, taken: Seq<Seq<char>>, a: nat, b: nat)
    requires
        first_free_id(base, taken, a),
        first_free_id(base, taken, b),
    ensures
        a == b,
{
    if a < b {
        assert(id_taken(taken, numbered_id(base, a)));
    } else if b < a {
        assert(id_taken(taken, numbered_id(base, b)));
    }
}

proof fn lemma_numbered_ids_differ(base: Seq<char>, a: nat, b: nat)
    requires
        numbered_id(base, a) == numbered_id(base, b),
    ensures
        a == b,
{
    let k = base.len() + 1;
    assert(dec(a) =~= numbered_id(base, a).skip(k as int));
    assert(dec(b) =~= numbered_id(base, b).skip(k as int));
    lemma_dec_injective(a, b);
}

pub fn connection_id_for_label(label: &str, taken: &Vec<String>) -> (r: String)
    ensures
        r@ == id_for_label(label@, texts(taken@)),
        !texts(taken@).contains(r@),
        r@ != "local"@,
        r@.len() > 0,
{
    let base = label_slug(label);
    let ghost b = slug_of(label@);
    let ghost us = texts(taken@);
    proof {
        reveal_strlit("connection");
    }
    if !list_has(taken, &base) && !same(&base, "local") {
        return base;
    }
    let mut n: u128 = 2;
    let count: usize = taken.len();
    let ghost f = |m: nat| numbered_id(b, m);
    let ghost all = us.push("local"@);
    assert(us.len() == count);
    loop
        invariant
            base@ == b,
            b == slug_of(label@),
            us == texts(taken@),
            us.len() == count,
            all == us.push("local"@),
            f == (|m: nat| numbered_id(b, m)),
            2 <= n <= count + 4,
            forall|m: nat| 2 <= m < n ==> id_taken(us, #[trigger] numbered_id(b, m)),
            id_taken(us, b),
        decreases count + 4 - n,
    {
        proof {
            assert forall|m: nat| 2 <= m < n implies all.contains(#[trigger] f(m)) by {
                assert(id_taken(us, numbered_id(b, m)));
                if f(m) == "local"@ {
                    assert(all[count as int] == f(m));
                } else {
                    let i = choose|i: int| 0 <= i < us.len() && us[i] == f(m);
                    assert(all[i] == f(m));
                }
            }
            assert forall|x: nat, y: nat| 2 <= x < n && 2 <= y < n && x != y implies #[trigger] f(x)
                != #[trigger] f(y) by {
                if f(x) == f(y) {
                    lemma_numbered_ids_differ(b, x, y);
                }
            }
            lemma_pigeonhole(all, f, n as nat);
        }
        let mut candidate = base.clone();
        candidate.push('-');
        candidate.append(&decimal(n));
        assert(candidate@ =~= numbered_id(b, n as nat));
        if !list_has(taken, &candidate) && !same(&candidate, "local") {
            proof {
                assert(first_free_id(b, us, n as nat));
                let c = choose|m: nat| first_free_id(b, us, m);
                lemma_first_free_id_unique(b, us, n as nat, c);
            }
            return candidate;
        }
        n += 1;
    }
}

// ---------------------------------------------------------------------------
// Small rules
// ---------------------------------------------------------------------------

pub open spec fn auth_mode_of(mode: Option<Seq<char>>) -> Seq<char> {
    if mode == Some("oauth"@) {
        "oauth"@
    } else {
        "token"@
    }
}

/// `oauth` when it is that, else `token`.
pub fn norm_auth_mode(mode: &Option<String>) -> (r: String)
    ensures
        r@ == auth_mode_of(opt_text(*mode)),
{
    match mode {
        Some(m) => if same(m, "oauth") {
            "oauth".to_string()
        } else {
            "token".to_string()
        },
        None => "token".to_string(),
    }
}

pub open spec fn remote_like(mode: Seq<char>) -> bool {
    mode == "remote"@ || mode == "cloud"@
}

pub fn mode_is_remote_like(mode: &str) -> (r: bool)
    ensures
        r == remote_like(mode@),
{
    same(mode, "remote") || same(mode, "cloud")
}

/// The name that a URL suggests: its host, and its port unless that is the
/// usual one.
pub open spec fn host_label_of_parts(u: Option<UrlV>) -> Option<Seq<char>> {
    match u {
        Some(p) => match p.host_str {
            Some(h) => if h.len() == 0 {
                None
            } else {
                match p.port {
                    Some(port) => if port != 80 && port != 443 {
                        Some(h + seq![':'] + dec(port as nat))
                    } else {
                        Some(h)
                    },
                    None => Some(h),
                }
            },
            None => None,
        },
        None => None,
    }
}

pub open spec fn host_label_of(base_url: Seq<char>) -> Option<Seq<char>> {
    host_label_of_parts(url_of(trimmed(base_url)))
}

pub open spec fn parts_view(u: Option<UrlParts>) -> Option<UrlV> {
    match u {
        Some(p) => Some(p@),
        None => None,
    }
}

pub fn host_label_from_parts(u: &Option<UrlParts>) -> (r: Option<String>)
    ensures
        opt_text(r) == host_label_of_parts(parts_view(*u)),
{
    match u {
        Some(p) => match &p.host_str {
            Some(h) => {
                if h.as_str().is_empty() {
                    return None;
                }
                match p.port {
                    Some(port) => {
                        let mut out = h.clone();
                        if port != 80 && port != 443 {
                            out.push(':');
                            out.append(&decimal(port as u128));
                            assert(out@ =~= h@ + seq![':'] + dec(port as nat));
                        }
                        Some(out)
                    },
                    None => Some(h.clone()),
                }
            },
            None => None,
        },
        None => None,
    }
}

pub fn host_label_from_base_url(base_url: &str) -> (r: Option<String>)
    ensures
        opt_text(r) == host_label_of(base_url@),
{
    let u = parse_url(&trim(base_url));
    host_label_from_parts(&u)
}

/// The characters of a header name.
pub open spec fn header_char(c: char) -> bool {
    ||| alnum(c)
    ||| c == '!' || c == '#' || c == '$' || c == '%' || c == '&' || c == '\'' || c == '*'
    ||| c == '+' || c == '.' || c == '^' || c == '_' || c == '`' || c == '|' || c == '~' || c == '-'
}

pub open spec fn header_name(name: Seq<char>) -> bool {
    name.len() > 0 && forall|i: int| 0 <= i < name.len() ==> header_char(#[trigger] name[i])
}

pub fn valid_header_name(name: &str) -> (r: bool)
    ensures
        r == header_name(name@),
{
    let v = chars_of(name);
    if v.len() == 0 {
        return false;
    }
    let mut i: usize = 0;
    while i < v.len()
        invariant
            i <= v@.len(),
            v@ == name@,
            forall|j: int| 0 <= j < i ==> header_char(#[trigger] v@[j]),
        decreases v@.len() - i,
    {
        let c = v[i];
        let ok = is_alnum(c) || c == '!' || c == '#' || c == '$' || c == '%' || c == '&' || c
            == '\'' || c == '*' || c == '+' || c == '.' || c == '^' || c == '_' || c == '`' || c
            == '|' || c == '~' || c == '-';
        if !ok {
            assert(!header_char(name@[i as int]));
            return false;
        }
        i += 1;
    }
    true
}

/// Headers that the library sets itself, or that shape the request.
pub open spec fn reserved_header(key: Seq<char>) -> bool {
    ||| key == "authorization"@ || key == "connection"@ || key == "content-length"@
    ||| key == "content-type"@ || key == "cookie"@ || key == "host"@ || key == "origin"@
    ||| key == "referer"@ || key == "te"@ || key == "trailer"@ || key == "transfer-encoding"@
    ||| key == "upgrade"@ || key == "x-hermes-session-token"@
}

pub fn is_reserved_header(key: &str) -> (r: bool)
    ensures
        r == reserved_header(key@),
{
    same(key, "authorization") || same(key, "connection") || same(key, "content-length") || same(
        key,
        "content-type",
    ) || same(key, "cookie") || same(key, "host") || same(key, "origin") || same(key, "referer")
        || same(key, "te") || same(key, "trailer") || same(key, "transfer-encoding") || same(
        key,
        "upgrade",
    ) || same(key, "x-hermes-session-token")
}

pub fn forbidden_header_name(name: &str) -> (r: bool)
    ensures
        r == reserved_header(lowercase(trimmed(name@))),
{
    is_reserved_header(&to_lowercase(&trim(name)))
}

pub open spec fn storable_header(name: Seq<char>) -> bool {
    header_name(name) && !reserved_header(lowercase(trimmed(name)))
}

pub fn is_storable_header(name: &str) -> (r: bool)
    ensures
        r == storable_header(name@),
{
    valid_header_name(name) && !forbidden_header_name(name)
}

pub open spec fn nonblank(s: Seq<char>) -> Option<Seq<char>> {
    if trimmed(s).len() > 0 {
        Some(trimmed(s))
    } else {
        None
    }
}

pub fn trim_nonblank(s: &str) -> (r: Option<String>)
    ensures
        opt_text(r) == nonblank(s@),
{
    let t = trim(s);
    if t.as_str().is_empty() {
        None
    } else {
        Some(t)
    }
}

/// The text of a header that can be sent: a plain string, or the text of a
/// plain envelope; never blank.
pub open spec fn usable_header(v: JsonV) -> Option<Seq<char>> {
    match v {
        JsonV::Str(s) => nonblank(s),
        JsonV::Obj(o) => {
            let encoding = match lookup(o, "encoding"@) {
                Some(JsonV::Str(e)) => e,
                _ => "plain"@,
            };
            match lookup(o, "value"@) {
                Some(JsonV::Str(s)) => if encoding == "plain"@ {
                    nonblank(s)
                } else {
                    None
                },
                _ => None,
            }
        },
        _ => None,
    }
}

pub fn usable_header_value(value: &Json) -> (r: Option<String>)
    ensures
        opt_text(r) == usable_header(value@),
{
    broadcast use crate::json::group_json_views;

    match value {
        Json::Str(s) => trim_nonblank(s),
        Json::Obj(o) => {
            let plain = match find_field(o, "encoding") {
                Some(Json::Str(e)) => same(e, "plain"),
                _ => true,
            };
            match find_field(o, "value") {
                Some(Json::Str(s)) => if plain {
                    trim_nonblank(s)
                } else {
                    None
                },
                _ => None,
            }
        },
        _ => None,
    }
}

// ---------------------------------------------------------------------------
// SSH hosts
// ---------------------------------------------------------------------------

/// Where an SSH connection goes.
pub struct SshFields {
    pub host: String,
    pub user: Option<String>,
    pub port: Option<i64>,
    pub key_path: Option<String>,
    pub remote_hermes_path: Option<String>,
    pub remote_profile: Option<String>,
}

#[verifier::ext_equal]
pub struct SshV {
    pub host: Seq<char>,
    pub user: Option<Seq<char>>,
    pub port: Option<i64>,
    pub key_path: Option<Seq<char>>,
    pub remote_hermes_path: Option<Seq<char>>,
    pub remote_profile: Option<Seq<char>>,
}

impl View for SshFields {
    type V = SshV;

    open spec fn view(&self) -> SshV {
        SshV {
            host: self.host@,
            user: opt_text(self.user),
            port: self.port,
            key_path: opt_text(self.key_path),
            remote_hermes_path: opt_text(self.remote_hermes_path),
            remote_profile: opt_text(self.remote_profile),
        }
    }
}

/// The host field without a pasted `ssh` in front.
pub open spec fn ssh_text(host: Seq<char>) -> Seq<char> {
    let t = trimmed(host);
    match after_prefix(t, "ssh "@) {
        Some(rest) => trimmed(rest),
        None => match after_prefix(t, "SSH "@) {
            Some(rest) => trimmed(rest),
            None => t,
        },
    }
}

/// The user in front of the first `@`, when there is one, and the rest.
pub open spec fn ssh_user_split(s: Seq<char>) -> (Option<Seq<char>>, Seq<char>) {
    match index_of(s, '@') {
        Some(at) => if at > 0 {
            (Some(s.take(at)), s.skip(at + 1))
        } else {
            (None, s)
        },
        None => (None, s),
    }
}

pub open spec fn all_digits(s: Seq<char>) -> bool {
    s.len() > 0 && forall|i: int| 0 <= i < s.len() ==> digit(#[trigger] s[i])
}

pub open spec fn small_int(s: Seq<char>) -> Option<i64> {
    match parse_int_of(s) {
        Some(n) => if i64::MIN <= n <= i64::MAX {
            Some(n as i64)
        } else {
            None
        },
        None => None,
    }
}

/// The host and the port of `[v6]:port`, when a text has that form.
pub open spec fn v6_port_split(s: Seq<char>) -> Option<(Seq<char>, Option<i64>)> {
    match (after_prefix(s, "["@), index_of(s, ']')) {
        (Some(_), Some(i)) => if i + 1 < s.len() && s[i + 1] == ':' && all_digits(s.skip(i + 2)) {
            Some((s.subrange(1, i), small_int(s.skip(i + 2))))
        } else {
            None
        },
        _ => None,
    }
}

/// The host and the port of `[v6]`, `[v6]:port`, `host:port` or `host`.
pub open spec fn ssh_port_split(s: Seq<char>) -> (Seq<char>, Option<i64>) {
    if after_prefix(s, "["@) is Some && before_suffix(after_prefix(s, "["@)->0, "]"@) is Some {
        (before_suffix(after_prefix(s, "["@)->0, "]"@)->0, None)
    } else if v6_port_split(s) is Some {
        v6_port_split(s)->0
    } else if count_of(s, ':') == 1 {
        match index_of(s, ':') {
            Some(i) => if all_digits(s.skip(i + 1)) {
                (s.take(i), small_int(s.skip(i + 1)))
            } else {
                (s, None)
            },
            None => (s, None),
        }
    } else {
        (s, None)
    }
}

/// A port worth storing: in range, and not the usual one.
pub open spec fn ssh_port(p: Option<i64>) -> Option<i64> {
    match p {
        Some(n) => if 0 < n <= 65535 && n != 22 {
            Some(n)
        } else {
            None
        },
        None => None,
    }
}

/// The port that is meant: the one of its own field where that is a port at all,
/// else the one that the host names.
pub open spec fn meant_port(own: Option<i64>, named: Option<i64>) -> Option<i64> {
    match own {
        Some(n) => if 0 < n <= 65535 {
            own
        } else {
            named
        },
        None => named,
    }
}

pub open spec fn opt_nonblank(o: Option<Seq<char>>) -> Option<Seq<char>> {
    match o {
        Some(s) => nonblank(s),
        None => None,
    }
}

/// One to sixty-four lower-case letters, digits, dashes and underscores, not
/// starting with either of the last.
pub open spec fn profile_name(p: Seq<char>) -> bool {
    &&& 0 < p.len() <= 64
    &&& lower_letter(p[0]) || digit(p[0])
    &&& forall|i: int|
        0 <= i < p.len() ==> lower_letter(#[trigger] p[i]) || digit(p[i]) || p[i] == '_' || p[i]
            == '-'
}

/// The fields of an SSH connection. The host field may name the user and the
/// port too; fields of their own come first. `None` without a host.
pub open spec fn ssh_fields_of(
    host: Option<Seq<char>>,
    user: Option<Seq<char>>,
    port: Option<i64>,
    key_path: Option<Seq<char>>,
    remote_hermes_path: Option<Seq<char>>,
    remote_profile: Option<Seq<char>>,
) -> Option<SshV> {
    let text = ssh_text(or_empty(host));
    let (named_user, rest) = ssh_user_split(text);
    let (bare, named_port) = ssh_port_split(rest);
    if text.len() == 0 || bare.len() == 0 {
        None
    } else {
        Some(
            SshV {
                host: bare,
                user: match opt_nonblank(user) {
                    Some(u) => Some(u),
                    None => named_user,
                },
                port: ssh_port(meant_port(port, named_port)),
                key_path: opt_nonblank(key_path),
                remote_hermes_path: opt_nonblank(remote_hermes_path),
                remote_profile: match opt_nonblank(remote_profile) {
                    Some(p) => if profile_name(p) {
                        Some(p)
                    } else {
                        None
                    },
                    None => None,
                },
            },
        )
    }
}

fn opt_trim_nonblank(o: &Option<String>) -> (r: Option<String>)
    ensures
        opt_text(r) == opt_nonblank(opt_text(*o)),
{
    match o {
        Some(s) => trim_nonblank(s),
        None => None,
    }
}

fn is_profile_name(p: &str) -> (r: bool)
    ensures
        r == profile_name(p@),
{
    let v = chars_of(p);
    if v.len() == 0 || v.len() > 64 {
        return false;
    }
    if !is_lower_letter(v[0]) && !is_digit(v[0]) {
        return false;
    }
    let mut i: usize = 0;
    while i < v.len()
        invariant
            i <= v@.len(),
            v@ == p@,
            forall|j: int|
                0 <= j < i ==> lower_letter(#[trigger] v@[j]) || digit(v@[j]) || v@[j] == '_'
                    || v@[j] == '-',
        decreases v@.len() - i,
    {
        if !is_lower_letter(v[i]) && !is_digit(v[i]) && v[i] != '_' && v[i] != '-' {
            assert(!(lower_letter(p@[i as int]) || digit(p@[i as int]) || p@[i as int] == '_'
                || p@[i as int] == '-'));
            return false;
        }
        i += 1;
    }
    true
}

fn usable_port(p: Option<i64>) -> (r: Option<i64>)
    ensures
        r == ssh_port(p),
{
    match p {
        Some(n) => if 0 < n && n <= 65535 && n != 22 {
            Some(n)
        } else {
            None
        },
        None => None,
    }
}

fn strip_ssh_command(host: &str) -> (r: String)
    ensures
        r@ == ssh_text(host@),
{
    let t = trim(host);
    if let Some(rest) = strip_prefix(&t, "ssh ") {
        trim(&rest)
    } else if let Some(rest) = strip_prefix(&t, "SSH ") {
        trim(&rest)
    } else {
        t
    }
}

fn split_user(s: &str) -> (r: (Option<String>, String))
    ensures
        (opt_text(r.0), r.1@) == ssh_user_split(s@),
{
    let v = chars_of(s);
    let n: usize = v.len();
    match find_char(&v, '@') {
        Some(at) => if at > 0 {
            assert(v@.subrange(0, at as int) =~= s@.take(at as int));
            assert(v@.subrange(at + 1, n as int) =~= s@.skip(at + 1));
            (Some(text_range(&v, 0, at)), text_range(&v, at + 1, n))
        } else {
            (None, s.to_string())
        },
        None => (None, s.to_string()),
    }
}

fn has_only_digits(s: &str) -> (r: bool)
    ensures
        r == all_digits(s@),
{
    let v = chars_of(s);
    if v.len() == 0 {
        return false;
    }
    let mut i: usize = 0;
    while i < v.len()
        invariant
            i <= v@.len(),
            v@ == s@,
            forall|j: int| 0 <= j < i ==> digit(#[trigger] v@[j]),
        decreases v@.len() - i,
    {
        if !is_digit(v[i]) {
            assert(!digit(s@[i as int]));
            return false;
        }
        i += 1;
    }
    true
}

fn split_v6_port(s: &str, v: &Vec<char>) -> (r: Option<(String, Option<i64>)>)
    requires
        v@ == s@,
    ensures
        match r {
            Some(p) => v6_port_split(s@) == Some((p.0@, p.1)),
            None => v6_port_split(s@) is None,
        },
{
    if !starts_with(s, "[") {
        return None;
    }
    let n: usize = v.len();
    match find_char(v, ']') {
        Some(i) => {
            proof {
                reveal_strlit("[");
                assert(s@.take(1)[0] == '[');
                assert(v@[0] == s@.take(1)[0]);
                crate::text::lemma_index_from(v@, ']', 0);
            }
            if n - i < 2 || v[i + 1] != ':' {
                return None;
            }
            let raw = text_range(v, i + 2, n);
            assert(raw@ =~= s@.skip(i + 2));
            if has_only_digits(&raw) {
                Some((text_range(v, 1, i), parse_i64(&raw)))
            } else {
                None
            }
        },
        None => None,
    }
}

fn split_port(s: &str) -> (r: (String, Option<i64>))
    ensures
        (r.0@, r.1) == ssh_port_split(s@),
{
    if let Some(inner) = strip_prefix(s, "[") {
        if let Some(host) = strip_suffix(&inner, "]") {
            return (host, None);
        }
    }
    let v = chars_of(s);
    let n: usize = v.len();
    if let Some(split) = split_v6_port(s, &v) {
        return split;
    }
    if count_char(&v, ':') == 1 {
        if let Some(i) = find_char(&v, ':') {
            let raw = text_range(&v, i + 1, n);
            assert(raw@ =~= s@.skip(i + 1));
            if has_only_digits(&raw) {
                assert(v@.subrange(0, i as int) =~= s@.take(i as int));
                return (text_range(&v, 0, i), parse_i64(&raw));
            }
        }
    }
    (s.to_string(), None)
}

pub fn normalize_ssh_fields(
    host: &Option<String>,
    user: &Option<String>,
    port: Option<i64>,
    key_path: &Option<String>,
    remote_hermes_path: &Option<String>,
    remote_profile: &Option<String>,
) -> (r: Option<SshFields>)
    ensures
        match r {
            Some(s) => ssh_fields_of(
                opt_text(*host),
                opt_text(*user),
                port,
                opt_text(*key_path),
                opt_text(*remote_hermes_path),
                opt_text(*remote_profile),
            ) == Some(s@),
            None => ssh_fields_of(
                opt_text(*host),
                opt_text(*user),
                port,
                opt_text(*key_path),
                opt_text(*remote_hermes_path),
                opt_text(*remote_profile),
            ) is None,
        },
{
    let raw = match host {
        Some(h) => h.clone(),
        None => String::new(),
    };
    assert(raw@ =~= or_empty(opt_text(*host)));
    let text = strip_ssh_command(&raw);
    if text.as_str().is_empty() {
        return None;
    }
    let (named_user, rest) = split_user(&text);
    let (bare, named_port) = split_port(&rest);
    if bare.as_str().is_empty() {
        return None;
    }
    let user = match opt_trim_nonblank(user) {
        Some(u) => Some(u),
        None => named_user,
    };
    let meant = match port {
        Some(n) => if 0 < n && n <= 65535 {
            port
        } else {
            named_port
        },
        None => named_port,
    };
    let port = usable_port(meant);
    let profile = match opt_trim_nonblank(remote_profile) {
        Some(p) => if is_profile_name(&p) {
            Some(p)
        } else {
            None
        },
        None => None,
    };
    Some(
        SshFields {
            host: bare,
            user,
            port,
            key_path: opt_trim_nonblank(key_path),
            remote_hermes_path: opt_trim_nonblank(remote_hermes_path),
            remote_profile: profile,
        },
    )
}

// ---------------------------------------------------------------------------
// Ids that were made
// ---------------------------------------------------------------------------

spec fn slug_char(c: char) -> bool {
    alnum(c) || c == '-'
}

spec fn slug_text(s: Seq<char>) -> bool {
    forall|i: int| 0 <= i < s.len() ==> slug_char(#[trigger] s[i])
}

proof fn lemma_slug_run(s: Seq<char>)
    ensures
        slug_text(slug_run(s).0),
    decreases s.len(),
{
    if s.len() > 0 {
        lemma_slug_run(s.drop_last());
    }
}

proof fn lemma_slug_trimmed(s: Seq<char>)
    requires
        slug_text(s),
    ensures
        slug_text(trim_of(s, Class::One('-'))),
{
    let k = Class::One('-');
    lemma_trim_start(s, k);
    let t = trim_start_of(s, k);
    lemma_trim_end(t, k);
    let u = trim_of(s, k);
    assert forall|i: int| 0 <= i < u.len() implies slug_char(#[trigger] u[i]) by {
        assert(u[i] == t[i]);
        assert(t[i] == s[i + (s.len() - t.len())]);
    }
}

/// An id that was made from a name is never blank, has no white space around
/// it, and is not the local one.
pub proof fn lemma_made_id(label: Seq<char>, taken: Seq<Seq<char>>)
    ensures
        id_for_label(label, taken).len() > 0,
        trimmed(id_for_label(label, taken)) == id_for_label(label, taken),
        id_for_label(label, taken) != "local"@,
{
    let lowered = lowercase(trimmed(label));
    lemma_slug_run(lowered);
    lemma_slug_trimmed(slug_run(lowered).0);
    reveal_strlit("connection");
    reveal_strlit("local");
    let base = slug_of(label);
    assert(base.len() > 0);
    assert(slug_text(base)) by {
        let cut = first_chars(trim_of(slug_run(lowered).0, Class::One('-')), 48);
        assert(slug_text(cut));
        assert forall|i: int| 0 <= i < "connection"@.len() implies slug_char(
            #[trigger] "connection"@[i],
        ) by {}
    }
    let id = id_for_label(label, taken);
    assert(slug_char(base[0]) && slug_char(base.last()));
    assert(id[0] == base[0]);
    if id != base {
        let n = choose|n: nat| first_free_id(base, taken, n);
        lemma_dec_value(n);
        let d = dec(n);
        assert(id.last() == d.last());
        assert(digit(d[d.len() - 1]));
        assert(id[base.len() as int] == '-');
        assert forall|i: int| 0 <= i < "local"@.len() implies #[trigger] "local"@[i] != '-' by {}
    }
    lemma_trim_fixed(id, Class::White);
}

} // verus!
