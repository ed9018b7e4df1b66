//! The saved choice of connection: one global remote block, and one override
//! per profile.

use crate::commands::json_result;
use crate::desktop_misc::{guard_of, guard_parts};
use crate::json::{
    bool_field, field, fields, items, no_fields, put, set_field, str_field, str_field_or_empty,
    Json, JsonV,
};
use crate::outside::{parse_url, url_of, UrlHost, UrlHostV, UrlV};
use crate::text::{
    contains, contains_of, copy_opt, dec, decimal, first_chars, opt_text, or_empty, same,
    take_chars, text_or_empty, trim, trim_end_char, trim_end_of, trimmed, unit_result, Class,
};
use vstd::prelude::*;

verus! {

// ---------------------------------------------------------------------------
// The saved file
// ---------------------------------------------------------------------------

/// One remote gateway, as the file holds it.
pub struct RemoteBlock {
    /// `local`, `remote`, `cloud` or `ssh`.
    pub mode: String,
    pub url: String,
    /// `oauth`, or anything else for a session token.
    pub auth_mode: String,
    pub token: Option<String>,
    /// The organisation of a cloud connection.
    pub org: String,
}

/// The whole file. Each profile has at most one override.
pub struct ConnectionConfigFile {
    pub mode: String,
    pub remote: RemoteBlock,
    pub profiles: Vec<(String, RemoteBlock)>,
}

#[verifier::ext_equal]
pub struct BlockV {
    pub mode: Seq<char>,
    pub url: Seq<char>,
    pub auth_mode: Seq<char>,
    pub token: Option<Seq<char>>,
    pub org: Seq<char>,
}

#[verifier::ext_equal]
pub struct ConfigV {
    pub mode: Seq<char>,
    pub remote: BlockV,
    pub profiles: Seq<(Seq<char>, BlockV)>,
}

impl View for RemoteBlock {
    type V = BlockV;

    open spec fn view(&self) -> BlockV {
        BlockV {
            mode: self.mode@,
            url: self.url@,
            auth_mode: self.auth_mode@,
            token: opt_text(self.token),
            org: self.org@,
        }
    }
}

pub open spec fn profiles_view(v: Seq<(String, RemoteBlock)>) -> Seq<(Seq<char>, BlockV)> {
    v.map_values(|p: (String, RemoteBlock)| (p.0@, p.1@))
}

impl View for ConnectionConfigFile {
    type V = ConfigV;

    open spec fn view(&self) -> ConfigV {
        ConfigV {
            mode: self.mode@,
            remote: self.remote@,
            profiles: profiles_view(self.profiles@),
        }
    }
}

pub open spec fn empty_block() -> BlockV {
    BlockV {
        mode: Seq::empty(),
        url: Seq::empty(),
        auth_mode: Seq::empty(),
        token: None,
        org: Seq::empty(),
    }
}

pub open spec fn profile_block(p: Seq<(Seq<char>, BlockV)>, key: Seq<char>) -> Option<BlockV>
    decreases p.len(),
{
    if p.len() == 0 {
        None
    } else if p[0].0 == key {
        Some(p[0].1)
    } else {
        profile_block(p.drop_first(), key)
    }
}

/// The overrides with the one for `key` replaced, or added at the end.
pub open spec fn set_profile_of(
    p: Seq<(Seq<char>, BlockV)>,
    key: Seq<char>,
    b: BlockV,
) -> Seq<(Seq<char>, BlockV)>
    decreases p.len(),
{
    if p.len() == 0 {
        seq![(key, b)]
    } else if p[0].0 == key {
        seq![(key, b)] + p.drop_first()
    } else {
        seq![p[0]] + set_profile_of(p.drop_first(), key, b)
    }
}

impl RemoteBlock {
    pub fn empty() -> (r: RemoteBlock)
        ensures
            r@ == empty_block(),
    {
        RemoteBlock {
            mode: String::new(),
            url: String::new(),
            auth_mode: String::new(),
            token: None,
            org: String::new(),
        }
    }

    pub fn dup(&self) -> (r: RemoteBlock)
        ensures
            r@ == self@,
    {
        RemoteBlock {
            mode: self.mode.clone(),
            url: self.url.clone(),
            auth_mode: self.auth_mode.clone(),
            token: copy_opt(&self.token),
            org: self.org.clone(),
        }
    }
}

impl ConnectionConfigFile {
    /// The override for a profile.
    pub fn profile(&self, key: &str) -> (r: Option<&RemoteBlock>)
        ensures
            match r {
                Some(b) => profile_block(self@.profiles, key@) == Some(b@),
                None => profile_block(self@.profiles, key@) is None,
            },
    {
        let ghost p = self@.profiles;
        let mut i: usize = 0;
        assert(p.skip(0) == p);
        while i < self.profiles.len()
            invariant
                i <= self.profiles@.len(),
                p == profiles_view(self.profiles@),
                p == self@.profiles,
                profile_block(p, key@) == profile_block(p.skip(i as int), key@),
            decreases self.profiles@.len() - i,
        {
            assert(p.skip(i as int)[0] == p[i as int]);
            if same(&self.profiles[i].0, key) {
                return Some(&self.profiles[i].1);
            }
            assert(p.skip(i as int).drop_first() == p.skip(i + 1));
            i += 1;
        }
        None
    }

    /// Sets the override for a profile.
    pub fn set_profile(&mut self, key: &str, b: RemoteBlock)
        ensures
            final(self)@ == (ConfigV {
                profiles: set_profile_of(old(self)@.profiles, key@, b@),
                ..old(self)@
            }),
    {
        let ghost p = profiles_view(self.profiles@);
        let ghost start = self.profiles@;
        let ghost block = b@;
        let mut i: usize = 0;
        assert(p.skip(0) == p);
        assert(p.take(0) + set_profile_of(p.skip(0), key@, block) =~= set_profile_of(
            p,
            key@,
            block,
        ));
        while i < self.profiles.len()
            invariant
                i <= self.profiles@.len(),
                *self == *old(self),
                self.profiles@ == start,
                block == b@,
                p == profiles_view(start),
                set_profile_of(p, key@, block) == p.take(i as int) + set_profile_of(
                    p.skip(i as int),
                    key@,
                    block,
                ),
            decreases self.profiles@.len() - i,
        {
            let ghost rest = p.skip(i as int);
            assert(rest[0] == p[i as int]);
            assert(rest.drop_first() == p.skip(i + 1));
            if same(&self.profiles[i].0, key) {
                self.profiles[i] = (key.to_string(), b);
                assert(profiles_view(self.profiles@) =~= p.take(i as int) + (seq![(key@, block)]
                    + rest.drop_first()));
                return;
            }
            assert(p.take(i as int) + (seq![rest[0]] + set_profile_of(p.skip(i + 1), key@, block))
                =~= p.take(i + 1) + set_profile_of(p.skip(i + 1), key@, block));
            i += 1;
        }
        self.profiles.push((key.to_string(), b));
        assert(p.skip(i as int) =~= Seq::empty());
        assert(profiles_view(self.profiles@) =~= p.take(i as int) + seq![(key@, block)]);
    }

    pub fn dup(&self) -> (r: ConnectionConfigFile)
        ensures
            r@ == self@,
    {
        let mut out: Vec<(String, RemoteBlock)> = Vec::new();
        let ghost p = profiles_view(self.profiles@);
        let mut i: usize = 0;
        while i < self.profiles.len()
            invariant
                i <= self.profiles@.len(),
                p == profiles_view(self.profiles@),
                profiles_view(out@) == p.take(i as int),
            decreases self.profiles@.len() - i,
        {
            let ghost before = profiles_view(out@);
            let pair = (self.profiles[i].0.clone(), self.profiles[i].1.dup());
            out.push(pair);
            assert(profiles_view(out@) == before.push((pair.0@, pair.1@)));
            assert(p.take(i + 1) == p.take(i as int).push(p[i as int]));
            i += 1;
        }
        assert(p.take(i as int) == p);
        ConnectionConfigFile { mode: self.mode.clone(), remote: self.remote.dup(), profiles: out }
    }
}

// ---------------------------------------------------------------------------
// The base URL of a gateway
// ---------------------------------------------------------------------------

/// The text that is parsed: `http://` is put in front of a value without a
/// scheme.
pub open spec fn with_scheme(s: Seq<char>) -> Seq<char> {
    if contains_of(s, "://"@) {
        s
    } else {
        "http://"@ + s
    }
}

pub open spec fn host_text(h: UrlHostV) -> Seq<char> {
    match h {
        UrlHostV::Absent => Seq::empty(),
        UrlHostV::Domain(s) => s,
        UrlHostV::V4(s) => s,
        UrlHostV::V6(s) => seq!['['] + s + seq![']'],
    }
}

/// Scheme, host, port and path; no trailing slash, query or fragment.
pub open spec fn base_of_parts(u: UrlV) -> Seq<char> {
    let base = u.scheme + "://"@ + host_text(u.host);
    let with_port = match u.port {
        Some(p) => base + seq![':'] + dec(p as nat),
        None => base,
    };
    with_port + trim_end_of(u.path, Class::One('/'))
}

/// The base URL that a typed value stands for. A value that is no URL is kept.
pub open spec fn base_url_of(raw: Seq<char>) -> Seq<char> {
    let t = trimmed(raw);
    if t.len() == 0 {
        Seq::empty()
    } else {
        match url_of(with_scheme(t)) {
            Some(u) => base_of_parts(u),
            None => t,
        }
    }
}

/// Puts a base URL together from the parts of a parsed one.
pub fn base_from_parts(u: &crate::outside::UrlParts) -> (r: String)
    ensures
        r@ == base_of_parts(u@),
{
    let mut base = u.scheme.clone();
    base.append("://");
    match &u.host {
        UrlHost::Absent => {
            assert(base@ + Seq::<char>::empty() == base@);
        },
        UrlHost::Domain(s) => base.append(s),
        UrlHost::V4(s) => base.append(s),
        UrlHost::V6(s) => {
            let ghost start = base@;
            base.push('[');
            base.append(s);
            base.push(']');
            assert(base@ =~= start + (seq!['['] + s@ + seq![']']));
        },
    }
    match u.port {
        Some(p) => {
            let ghost start = base@;
            base.push(':');
            base.append(&decimal(p as u128));
            assert(base@ =~= start + seq![':'] + dec(p as nat));
        },
        None => {},
    }
    let path = trim_end_char(&u.path, '/');
    base.append(&path);
    base
}

pub fn normalize_remote_base_url(raw: &str) -> (r: String)
    ensures
        r@ == base_url_of(raw@),
{
    let t = trim(raw);
    if t.as_str().is_empty() {
        assert(t@.len() == 0);
        return String::new();
    }
    let candidate = if contains(&t, "://") {
        t.clone()
    } else {
        let mut c = "http://".to_string();
        c.append(&t);
        c
    };
    match parse_url(&candidate) {
        Some(u) => base_from_parts(&u),
        None => t,
    }
}

// ---------------------------------------------------------------------------
// The choice as the renderer sees it
// ---------------------------------------------------------------------------

/// How a token is shown: not at all, or by its first eight characters.
pub open spec fn preview_of(token: Seq<char>) -> Option<Seq<char>> {
    if token.len() == 0 {
        None
    } else {
        Some(first_chars(token, 8) + "…"@)
    }
}

pub fn token_preview(token: &str) -> (r: Option<String>)
    ensures
        opt_text(r) == preview_of(token@),
{
    if token.is_empty() {
        return None;
    }
    let mut out = take_chars(token, 8);
    out.append("…");
    Some(out)
}

/// Whether two tokens look the same from outside: both set or both not, with
/// the same first eight characters.
pub open spec fn looks_alike(a: Seq<char>, b: Seq<char>) -> bool {
    (a.len() == 0) == (b.len() == 0) && first_chars(a, 8) == first_chars(b, 8)
}

/// The choice as it leaves the process.
pub struct DesktopConnectionConfig {
    pub env_override: bool,
    pub mode: String,
    pub profile: Option<String>,
    pub remote_auth_mode: String,
    pub remote_oauth_connected: bool,
    pub remote_token_preview: Option<String>,
    pub remote_token_set: bool,
    pub remote_url: String,
    pub cloud_org: String,
    pub ssh_host: String,
    pub ssh_user: String,
    pub ssh_port: Option<i32>,
    pub ssh_key_path: String,
    pub ssh_remote_hermes_path: String,
    pub ssh_remote_profile: String,
}

#[verifier::ext_equal]
pub struct ShownV {
    pub env_override: bool,
    pub mode: Seq<char>,
    pub profile: Option<Seq<char>>,
    pub remote_auth_mode: Seq<char>,
    pub remote_oauth_connected: bool,
    pub remote_token_preview: Option<Seq<char>>,
    pub remote_token_set: bool,
    pub remote_url: Seq<char>,
    pub cloud_org: Seq<char>,
    pub ssh_host: Seq<char>,
    pub ssh_user: Seq<char>,
    pub ssh_port: Option<i32>,
    pub ssh_key_path: Seq<char>,
    pub ssh_remote_hermes_path: Seq<char>,
    pub ssh_remote_profile: Seq<char>,
}

impl View for DesktopConnectionConfig {
    type V = ShownV;

    open spec fn view(&self) -> ShownV {
        ShownV {
            env_override: self.env_override,
            mode: self.mode@,
            profile: opt_text(self.profile),
            remote_auth_mode: self.remote_auth_mode@,
            remote_oauth_connected: self.remote_oauth_connected,
            remote_token_preview: opt_text(self.remote_token_preview),
            remote_token_set: self.remote_token_set,
            remote_url: self.remote_url@,
            cloud_org: self.cloud_org@,
            ssh_host: self.ssh_host@,
            ssh_user: self.ssh_user@,
            ssh_port: self.ssh_port,
            ssh_key_path: self.ssh_key_path@,
            ssh_remote_hermes_path: self.ssh_remote_hermes_path@,
            ssh_remote_profile: self.ssh_remote_profile@,
        }
    }
}

/// A known mode; anything else is `local`.
pub open spec fn known_mode(m: Seq<char>) -> Seq<char> {
    if m == "ssh"@ || m == "remote"@ || m == "cloud"@ {
        m
    } else {
        "local"@
    }
}

pub open spec fn known_auth(m: Seq<char>) -> Seq<char> {
    if m == "oauth"@ {
        "oauth"@
    } else {
        "token"@
    }
}

fn mode_of(m: &str) -> (r: String)
    ensures
        r@ == known_mode(m@),
{
    if same(m, "ssh") || same(m, "remote") || same(m, "cloud") {
        m.to_string()
    } else {
        "local".to_string()
    }
}

fn auth_of(m: &str) -> (r: String)
    ensures
        r@ == known_auth(m@),
{
    if same(m, "oauth") {
        "oauth".to_string()
    } else {
        "token".to_string()
    }
}

/// The override that a scope selects: none for the global scope.
pub open spec fn scoped_block(c: ConfigV, key: Seq<char>) -> Option<BlockV> {
    if key.len() == 0 {
        None
    } else {
        profile_block(c.profiles, key)
    }
}

/// The choice for a scope, without the token itself. A profile without an
/// override sees the global choice.
pub open spec fn shown(c: ConfigV, profile: Option<Seq<char>>) -> ShownV {
    let scoped = scoped_block(c, or_empty(profile));
    let block = match scoped {
        Some(b) => b,
        None => c.remote,
    };
    let mode = known_mode(
        match scoped {
            Some(b) => b.mode,
            None => c.mode,
        },
    );
    let token = or_empty(block.token);
    ShownV {
        env_override: false,
        mode,
        profile,
        remote_auth_mode: known_auth(block.auth_mode),
        remote_oauth_connected: false,
        remote_token_preview: preview_of(token),
        remote_token_set: token.len() > 0,
        remote_url: trim_end_of(block.url, Class::One('/')),
        cloud_org: if mode == "cloud"@ {
            block.org
        } else {
            Seq::empty()
        },
        ssh_host: Seq::empty(),
        ssh_user: Seq::empty(),
        ssh_port: None,
        ssh_key_path: Seq::empty(),
        ssh_remote_hermes_path: Seq::empty(),
        ssh_remote_profile: Seq::empty(),
    }
}

pub fn sanitize(config: &ConnectionConfigFile, profile: Option<String>) -> (r:
    DesktopConnectionConfig)
    ensures
        r@ == shown(config@, opt_text(profile)),
{
    let key = text_or_empty(&profile);
    let scoped = if key.as_str().is_empty() {
        None
    } else {
        config.profile(&key)
    };
    let block = match scoped {
        Some(b) => b,
        None => &config.remote,
    };
    let mode = match scoped {
        Some(b) => mode_of(&b.mode),
        None => mode_of(&config.mode),
    };
    let token = text_or_empty(&block.token);
    let cloud_org = if same(&mode, "cloud") {
        block.org.clone()
    } else {
        String::new()
    };
    let r = DesktopConnectionConfig {
        env_override: false,
        mode,
        profile,
        remote_auth_mode: auth_of(&block.auth_mode),
        remote_oauth_connected: false,
        remote_token_preview: token_preview(&token),
        remote_token_set: !token.as_str().is_empty(),
        remote_url: trim_end_char(&block.url, '/'),
        cloud_org,
        ssh_host: String::new(),
        ssh_user: String::new(),
        ssh_port: None,
        ssh_key_path: String::new(),
        ssh_remote_hermes_path: String::new(),
        ssh_remote_profile: String::new(),
    };
    assert(r@ =~= shown(config@, opt_text(profile)));
    r
}

// ---------------------------------------------------------------------------
// Saving a choice
// ---------------------------------------------------------------------------

/// The profile that a payload edits; empty for the global choice.
pub open spec fn edited_profile(payload: JsonV) -> Seq<char> {
    str_field_or_empty(payload, "profile"@)
}

pub open spec fn payload_mode(payload: JsonV) -> Seq<char> {
    match str_field(payload, "mode"@) {
        Some(m) => known_mode(m),
        None => "local"@,
    }
}

/// The mode that the edited scope had before.
pub open spec fn former_mode(payload: JsonV, existing: ConfigV) -> Seq<char> {
    let key = edited_profile(payload);
    if key.len() == 0 {
        existing.mode
    } else {
        match profile_block(existing.profiles, key) {
            Some(b) => b.mode,
            None => Seq::empty(),
        }
    }
}

/// Whether a save leaves a cloud connection for another kind.
pub open spec fn leaves_cloud(payload: JsonV, existing: ConfigV) -> bool {
    former_mode(payload, existing) == "cloud"@ && payload_mode(payload) != "cloud"@
}

/// What a save starts from: the block that it edits, or nothing when it leaves a
/// cloud connection.
pub open spec fn starting_block(payload: JsonV, existing: ConfigV) -> BlockV {
    let key = edited_profile(payload);
    if leaves_cloud(payload, existing) {
        empty_block()
    } else if key.len() == 0 {
        existing.remote
    } else {
        match profile_block(existing.profiles, key) {
            Some(b) => b,
            None => empty_block(),
        }
    }
}

/// The block that a payload asks for, on top of `base`.
pub open spec fn edited_block(payload: JsonV, base: BlockV) -> BlockV {
    let mode = payload_mode(payload);
    let typed = trimmed(str_field_or_empty(payload, "remoteToken"@));
    BlockV {
        mode,
        url: base_url_of(
            match str_field(payload, "remoteUrl"@) {
                Some(u) => u,
                None => base.url,
            },
        ),
        auth_mode: match str_field(payload, "remoteAuthMode"@) {
            Some(a) => if a == "oauth"@ || a == "token"@ {
                a
            } else {
                known_auth(base.auth_mode)
            },
            None => known_auth(base.auth_mode),
        },
        token: if typed.len() == 0 {
            base.token
        } else {
            Some(typed)
        },
        org: if mode == "cloud"@ {
            match str_field(payload, "cloudOrg"@) {
                Some(o) => o,
                None => base.org,
            }
        } else {
            Seq::empty()
        },
    }
}

/// The file after a save.
pub open spec fn coerced(payload: JsonV, existing: ConfigV) -> ConfigV {
    let key = edited_profile(payload);
    let block = edited_block(payload, starting_block(payload, existing));
    if key.len() == 0 {
        ConfigV { mode: block.mode, remote: block, ..existing }
    } else {
        ConfigV { profiles: set_profile_of(existing.profiles, key, block), ..existing }
    }
}

fn edit_block(payload: &Json, base: &RemoteBlock) -> (r: RemoteBlock)
    ensures
        r@ == edited_block(payload@, base@),
{
    let mode = match payload.get_str("mode") {
        Some(m) => mode_of(&m),
        None => "local".to_string(),
    };
    let url = match payload.get_str("remoteUrl") {
        Some(u) => normalize_remote_base_url(&u),
        None => normalize_remote_base_url(&base.url),
    };
    let auth_mode = match payload.get_str("remoteAuthMode") {
        Some(a) => if same(&a, "oauth") || same(&a, "token") {
            a
        } else {
            auth_of(&base.auth_mode)
        },
        None => auth_of(&base.auth_mode),
    };
    let org = if same(&mode, "cloud") {
        match payload.get_str("cloudOrg") {
            Some(o) => o,
            None => base.org.clone(),
        }
    } else {
        let none = String::new();
        assert(none@ =~= Seq::<char>::empty());
        none
    };
    let typed = trim(&payload.get_str_or_empty("remoteToken"));
    let token = if typed.as_str().is_empty() {
        copy_opt(&base.token)
    } else {
        Some(typed)
    };
    RemoteBlock { mode, url, auth_mode, token, org }
}

/// Applies a payload to the saved file.
pub fn coerce(payload: &Json, existing: &ConnectionConfigFile) -> (r: ConnectionConfigFile)
    ensures
        r@ == coerced(payload@, existing@),
{
    let key = payload.get_str_or_empty("profile");
    let mode = match payload.get_str("mode") {
        Some(m) => mode_of(&m),
        None => "local".to_string(),
    };
    let global = key.as_str().is_empty();
    let scoped = if global {
        None
    } else {
        existing.profile(&key)
    };
    let was_cloud = if global {
        same(&existing.mode, "cloud")
    } else {
        match scoped {
            Some(b) => same(&b.mode, "cloud"),
            None => {
                proof {
                    reveal_strlit("cloud");
                }
                false
            },
        }
    };
    let base = if was_cloud && !same(&mode, "cloud") {
        RemoteBlock::empty()
    } else if global {
        existing.remote.dup()
    } else {
        match scoped {
            Some(b) => b.dup(),
            None => RemoteBlock::empty(),
        }
    };
    assert(base@ == starting_block(payload@, existing@));
    let block = edit_block(payload, &base);
    let mut next = existing.dup();
    if global {
        next.mode = mode;
        next.remote = block;
    } else {
        next.set_profile(&key, block);
    }
    next
}

/// The saved choice for a scope.
pub fn get_connection_config(config: &ConnectionConfigFile, profile: Option<String>) -> (r:
    DesktopConnectionConfig)
    ensures
        r@ == shown(config@, opt_text(profile)),
{
    sanitize(config, profile)
}

/// The file to write for a payload, and what is answered.
pub fn save_connection_config(payload: &Json, existing: &ConnectionConfigFile) -> (r: (
    ConnectionConfigFile,
    DesktopConnectionConfig,
))
    ensures
        r.0@ == coerced(payload@, existing@),
        r.1@ == shown(coerced(payload@, existing@), str_field(payload@, "profile"@)),
{
    let next = coerce(payload, existing);
    let view = sanitize(&next, payload.get_str("profile"));
    (next, view)
}

/// The same as a save; the second value is also what is announced.
pub fn apply_connection_config(payload: &Json, existing: &ConnectionConfigFile) -> (r: (
    ConnectionConfigFile,
    DesktopConnectionConfig,
))
    ensures
        r.0@ == coerced(payload@, existing@),
        r.1@ == shown(coerced(payload@, existing@), str_field(payload@, "profile"@)),
{
    save_connection_config(payload, existing)
}

pub proof fn lemma_profile_after_set(
    p: Seq<(Seq<char>, BlockV)>,
    key: Seq<char>,
    b: BlockV,
    other: Seq<char>,
)
    ensures
        profile_block(set_profile_of(p, key, b), other) == if other == key {
            Some(b)
        } else {
            profile_block(p, other)
        },
    decreases p.len(),
{
    let q = set_profile_of(p, key, b);
    if p.len() == 0 {
        assert(profile_block(q.drop_first(), other) is None);
    } else if p[0].0 == key {
        assert(q.drop_first() =~= p.drop_first());
    } else {
        lemma_profile_after_set(p.drop_first(), key, b, other);
        assert(q.drop_first() =~= set_profile_of(p.drop_first(), key, b));
    }
}

/// A save changes the scope that it names and no other.
pub proof fn law_save_touches_one_scope(payload: JsonV, existing: ConfigV, other: Seq<char>)
    requires
        other != edited_profile(payload),
    ensures
        other.len() > 0 ==> scoped_block(coerced(payload, existing), other) == scoped_block(
            existing,
            other,
        ),
        other.len() == 0 ==> coerced(payload, existing).remote == existing.remote && coerced(
            payload,
            existing,
        ).mode == existing.mode,
{
    let key = edited_profile(payload);
    lemma_profile_after_set(
        existing.profiles,
        key,
        edited_block(payload, starting_block(payload, existing)),
        other,
    );
    if other.len() == 0 {
        assert(other =~= Seq::<char>::empty());
        if key.len() == 0 {
            assert(key =~= Seq::<char>::empty());
        }
    }
}

/// What is shown right after a save is what the save asked for.
pub proof fn law_saved_choice_is_shown(payload: JsonV, existing: ConfigV)
    ensures
        ({
            let block = edited_block(payload, starting_block(payload, existing));
            let s = shown(coerced(payload, existing), str_field(payload, "profile"@));
            &&& s.mode == payload_mode(payload)
            &&& s.remote_auth_mode == block.auth_mode
            &&& s.remote_url == trim_end_of(block.url, Class::One('/'))
            &&& s.cloud_org == block.org
            &&& s.remote_token_preview == preview_of(or_empty(block.token))
        }),
{
    let key = edited_profile(payload);
    let block = edited_block(payload, starting_block(payload, existing));
    lemma_profile_after_set(existing.profiles, key, block, key);
    reveal_strlit("local");
    reveal_strlit("cloud");
}

/// A save that types no token keeps the saved one, unless it leaves a cloud
/// connection: then nothing of the old block is kept.
pub proof fn law_saved_token_is_kept_or_forgotten(payload: JsonV, existing: ConfigV)
    requires
        trimmed(str_field_or_empty(payload, "remoteToken"@)).len() == 0,
    ensures
        ({
            let key = edited_profile(payload);
            let before = if key.len() == 0 {
                existing.remote.token
            } else {
                match scoped_block(existing, key) {
                    Some(b) => b.token,
                    None => None,
                }
            };
            let after = if key.len() == 0 {
                coerced(payload, existing).remote.token
            } else {
                scoped_block(coerced(payload, existing), key)->Some_0.token
            };
            after == if leaves_cloud(payload, existing) {
                None
            } else {
                before
            }
        }),
{
    lemma_profile_after_set(
        existing.profiles,
        edited_profile(payload),
        edited_block(payload, starting_block(payload, existing)),
        edited_profile(payload),
    );
}

/// Whether two blocks differ at most in what stays inside: the tail of the token.
pub open spec fn blocks_alike(a: BlockV, b: BlockV) -> bool {
    (BlockV { token: a.token, ..b }) == a && looks_alike(or_empty(a.token), or_empty(b.token))
}

/// Two files that differ only in the tails of their tokens are shown alike.
pub proof fn law_shown_choice_hides_the_token(
    a: ConfigV,
    b: ConfigV,
    profile: Option<Seq<char>>,
)
    requires
        a.mode == b.mode,
        blocks_alike(a.remote, b.remote),
        a.profiles.len() == b.profiles.len(),
        forall|i: int|
            0 <= i < a.profiles.len() ==> (#[trigger] a.profiles[i]).0 == b.profiles[i].0
                && blocks_alike(a.profiles[i].1, b.profiles[i].1),
    ensures
        shown(a, profile) == shown(b, profile),
{
    lemma_scoped_alike(a.profiles, b.profiles, or_empty(profile));
}

proof fn lemma_scoped_alike(
    p: Seq<(Seq<char>, BlockV)>,
    q: Seq<(Seq<char>, BlockV)>,
    key: Seq<char>,
)
    requires
        p.len() == q.len(),
        forall|i: int|
            0 <= i < p.len() ==> (#[trigger] p[i]).0 == q[i].0 && blocks_alike(p[i].1, q[i].1),
    ensures
        match (profile_block(p, key), profile_block(q, key)) {
            (Some(x), Some(y)) => blocks_alike(x, y),
            (None, None) => true,
            _ => false,
        },
    decreases p.len(),
{
    if p.len() > 0 {
        assert(p[0].0 == q[0].0);
        let p1 = p.drop_first();
        let q1 = q.drop_first();
        assert forall|i: int| 0 <= i < p1.len() implies (#[trigger] p1[i]).0 == q1[i].0
            && blocks_alike(p1[i].1, q1[i].1) by {
            assert(p1[i] == p[i + 1]);
            assert(q1[i] == q[i + 1]);
        }
        lemma_scoped_alike(p1, q1, key);
    }
}

// ---------------------------------------------------------------------------
// Probing a gateway
// ---------------------------------------------------------------------------

/// The most bytes of a probe's reply that are read.
pub const PROBE_REPLY_MAX: u64 = 262144;

/// How long a probe may take.
pub const PROBE_TIMEOUT_MS: u64 = 8000;

/// What a probe found.
pub struct DesktopConnectionProbeResult {
    pub base_url: String,
    pub reachable: bool,
    pub auth_mode: String,
    pub providers: Vec<Json>,
    pub version: Option<String>,
    pub error: Option<String>,
}

#[verifier::ext_equal]
pub struct ProbeV {
    pub base_url: Seq<char>,
    pub reachable: bool,
    pub auth_mode: Seq<char>,
    pub providers: Seq<JsonV>,
    pub version: Option<Seq<char>>,
    pub error: Option<Seq<char>>,
}

impl View for DesktopConnectionProbeResult {
    type V = ProbeV;

    open spec fn view(&self) -> ProbeV {
        ProbeV {
            base_url: self.base_url@,
            reachable: self.reachable,
            auth_mode: self.auth_mode@,
            providers: items(self.providers@),
            version: opt_text(self.version),
            error: opt_text(self.error),
        }
    }
}

/// Whether an address may be probed: no local or private host.
pub fn check_probe_url(url: &str) -> (r: Result<(), String>)
    ensures
        unit_result(r) == guard_of("probe"@, url_of(url@)),
{
    guard_parts("probe", &parse_url(url))
}

/// Whether a reply of this many bytes is taken.
pub open spec fn probe_size_guard(bytes: u64) -> Result<(), Seq<char>> {
    if bytes > 262144 {
        Err("probe response exceeded 256 KiB limit"@)
    } else {
        Ok(())
    }
}

pub fn check_probe_size(bytes: u64) -> (r: Result<(), String>)
    ensures
        unit_result(r) == probe_size_guard(bytes),
{
    if bytes > PROBE_REPLY_MAX {
        Err("probe response exceeded 256 KiB limit".to_string())
    } else {
        Ok(())
    }
}

/// One sign-in provider, when it has a name.
pub open spec fn provider_of(p: JsonV) -> Option<JsonV> {
    let name = str_field_or_empty(p, "name"@);
    if name.len() == 0 {
        None
    } else {
        let o = put(no_fields(), "name"@, JsonV::Str(name));
        let o = put(
            o,
            "displayName"@,
            JsonV::Str(
                match str_field(p, "display_name"@) {
                    Some(d) => d,
                    None => name,
                },
            ),
        );
        Some(
            JsonV::Obj(
                put(
                    o,
                    "supportsPassword"@,
                    JsonV::Bool(bool_field(p, "supports_password"@) == Some(true)),
                ),
            ),
        )
    }
}

pub open spec fn providers_in(v: Seq<JsonV>) -> Seq<JsonV>
    decreases v.len(),
{
    if v.len() == 0 {
        Seq::empty()
    } else {
        match provider_of(v.last()) {
            Some(p) => providers_in(v.drop_last()).push(p),
            None => providers_in(v.drop_last()),
        }
    }
}

/// The providers that a reply lists.
pub open spec fn listed_providers(reply: Result<JsonV, Seq<char>>) -> Seq<JsonV> {
    match reply {
        Ok(body) => match field(body, "providers"@) {
            Some(JsonV::Arr(v)) => providers_in(v),
            _ => Seq::empty(),
        },
        Err(_) => Seq::empty(),
    }
}

pub open spec fn opt_json_view(o: Option<Json>) -> Option<JsonV> {
    match o {
        Some(j) => Some(j@),
        None => None,
    }
}

fn read_provider(p: &Json) -> (r: Option<Json>)
    ensures
        opt_json_view(r) == provider_of(p@),
{
    broadcast use crate::json::group_json_views;

    let name = p.get_str_or_empty("name");
    if name.as_str().is_empty() {
        return None;
    }
    let display = match p.get_str("display_name") {
        Some(d) => d,
        None => name.clone(),
    };
    let password = match p.get_bool("supports_password") {
        Some(b) => b,
        None => false,
    };
    let mut o: Vec<(String, Json)> = Vec::new();
    assert(fields(o@) =~= no_fields());
    set_field(&mut o, "name", Json::Str(name));
    set_field(&mut o, "displayName", Json::Str(display));
    set_field(&mut o, "supportsPassword", Json::Bool(password));
    Some(Json::Obj(o))
}

fn read_providers(reply: &Result<Json, String>) -> (r: Vec<Json>)
    ensures
        items(r@) == listed_providers(json_result(*reply)),
{
    broadcast use crate::json::group_json_views;

    let mut out: Vec<Json> = Vec::new();
    assert(items(out@) =~= Seq::<JsonV>::empty());
    if let Ok(body) = reply {
        if let Some(Json::Arr(v)) = body.get("providers") {
            let ghost all = items(v@);
            assert(all.take(0) =~= Seq::<JsonV>::empty());
            let mut i: usize = 0;
            while i < v.len()
                invariant
                    i <= v@.len(),
                    all == items(v@),
                    items(out@) == providers_in(all.take(i as int)),
                decreases v@.len() - i,
            {
                assert(all.take(i + 1).drop_last() =~= all.take(i as int));
                assert(all.take(i + 1).last() == v@[i as int]@);
                if let Some(p) = read_provider(&v[i]) {
                    let ghost before = items(out@);
                    out.push(p);
                    assert(items(out@) =~= before.push(p@));
                }
                i += 1;
            }
            assert(all.take(i as int) =~= all);
        }
    }
    out
}

/// The next thing that a probe does.
pub enum ProbeStep {
    /// Fetch this address, and hand the reply back behind the earlier ones.
    Fetch(String),
    Done(DesktopConnectionProbeResult),
}

pub enum ProbeStepV {
    Fetch(Seq<char>),
    Done(ProbeV),
}

impl View for ProbeStep {
    type V = ProbeStepV;

    open spec fn view(&self) -> ProbeStepV {
        match self {
            ProbeStep::Fetch(u) => ProbeStepV::Fetch(u@),
            ProbeStep::Done(r) => ProbeStepV::Done(r@),
        }
    }
}

pub open spec fn replies_view(v: Seq<Result<Json, String>>) -> Seq<Result<JsonV, Seq<char>>> {
    v.map_values(|r: Result<Json, String>| json_result(r))
}

/// A probe asks for the gateway's status; where that says that signing in is
/// required, it asks for the providers too. A failed second request leaves the
/// providers empty.
pub open spec fn probe_of(raw_url: Seq<char>, replies: Seq<Result<JsonV, Seq<char>>>) -> ProbeStepV {
    let base = base_url_of(raw_url);
    if replies.len() == 0 {
        ProbeStepV::Fetch(base + "/api/status"@)
    } else {
        match replies[0] {
            Err(e) => ProbeStepV::Done(
                ProbeV {
                    base_url: base,
                    reachable: false,
                    auth_mode: "unknown"@,
                    providers: Seq::empty(),
                    version: None,
                    error: Some(e),
                },
            ),
            Ok(status) => {
                let required = bool_field(status, "auth_required"@) == Some(true);
                if required && replies.len() == 1 {
                    ProbeStepV::Fetch(base + "/api/auth/providers"@)
                } else {
                    ProbeStepV::Done(
                        ProbeV {
                            base_url: base,
                            reachable: true,
                            auth_mode: if required {
                                "oauth"@
                            } else {
                                "token"@
                            },
                            providers: if required {
                                listed_providers(replies[1])
                            } else {
                                Seq::empty()
                            },
                            version: str_field(status, "version"@),
                            error: None,
                        },
                    )
                }
            },
        }
    }
}

pub fn probe_remote_auth_mode(raw_url: &str, replies: &Vec<Result<Json, String>>) -> (r: ProbeStep)
    ensures
        r@ == probe_of(raw_url@, replies_view(replies@)),
{
    let ghost said = replies_view(replies@);
    let base = normalize_remote_base_url(raw_url);
    if replies.len() == 0 {
        let mut u = base;
        u.append("/api/status");
        return ProbeStep::Fetch(u);
    }
    assert(said[0] == json_result(replies@[0]));
    match &replies[0] {
        Err(e) => {
            let none: Vec<Json> = Vec::new();
            assert(items(none@) =~= Seq::<JsonV>::empty());
            ProbeStep::Done(
                DesktopConnectionProbeResult {
                    base_url: base,
                    reachable: false,
                    auth_mode: "unknown".to_string(),
                    providers: none,
                    version: None,
                    error: Some(e.clone()),
                },
            )
        },
        Ok(status) => {
            let required = match status.get_bool("auth_required") {
                Some(b) => b,
                None => false,
            };
            if required && replies.len() == 1 {
                let mut u = base;
                u.append("/api/auth/providers");
                return ProbeStep::Fetch(u);
            }
            let providers = if required {
                assert(said[1] == json_result(replies@[1]));
                read_providers(&replies[1])
            } else {
                let none: Vec<Json> = Vec::new();
                assert(items(none@) =~= Seq::<JsonV>::empty());
                none
            };
            let auth_mode = if required {
                "oauth".to_string()
            } else {
                "token".to_string()
            };
            ProbeStep::Done(
                DesktopConnectionProbeResult {
                    base_url: base,
                    reachable: true,
                    auth_mode,
                    providers,
                    version: status.get_str("version"),
                    error: None,
                },
            )
        },
    }
}

/// A probe makes at most two requests.
pub proof fn law_probe_ends(raw_url: Seq<char>, replies: Seq<Result<JsonV, Seq<char>>>)
    requires
        replies.len() >= 2,
    ensures
        probe_of(raw_url, replies) is Done,
{
}

/// Tests the connection that a payload describes.
pub open spec fn config_test_of(
    payload: JsonV,
    replies: Seq<Result<JsonV, Seq<char>>>,
) -> Result<ProbeStepV, Seq<char>> {
    let url = str_field_or_empty(payload, "remoteUrl"@);
    if str_field_or_empty(payload, "mode"@) == "ssh"@ {
        Err("SSH connection testing is not supported in this build yet."@)
    } else if trimmed(url).len() == 0 {
        Err("remoteUrl is required to test a connection."@)
    } else {
        Ok(probe_of(url, replies))
    }
}

/// Probes an address.
pub open spec fn address_probe_of(
    raw_url: Seq<char>,
    replies: Seq<Result<JsonV, Seq<char>>>,
) -> Result<ProbeStepV, Seq<char>> {
    if trimmed(raw_url).len() == 0 {
        Err("URL is required."@)
    } else {
        Ok(probe_of(raw_url, replies))
    }
}

pub open spec fn probe_result(r: Result<ProbeStep, String>) -> Result<ProbeStepV, Seq<char>> {
    match r {
        Ok(s) => Ok(s@),
        Err(e) => Err(e@),
    }
}

/// Tests the connection that a payload describes.
pub fn test_connection_config(payload: &Json, replies: &Vec<Result<Json, String>>) -> (r: Result<
    ProbeStep,
    String,
>)
    ensures
        probe_result(r) == config_test_of(payload@, replies_view(replies@)),
{
    if same(&payload.get_str_or_empty("mode"), "ssh") {
        return Err("SSH connection testing is not supported in this build yet.".to_string());
    }
    let url = payload.get_str_or_empty("remoteUrl");
    if trim(&url).as_str().is_empty() {
        return Err("remoteUrl is required to test a connection.".to_string());
    }
    Ok(probe_remote_auth_mode(&url, replies))
}

/// Probes an address.
pub fn probe_connection_config(raw_url: &str, replies: &Vec<Result<Json, String>>) -> (r: Result<
    ProbeStep,
    String,
>)
    ensures
        probe_result(r) == address_probe_of(raw_url@, replies_view(replies@)),
{
    if trim(raw_url).as_str().is_empty() {
        return Err("URL is required.".to_string());
    }
    Ok(probe_remote_auth_mode(raw_url, replies))
}

} // verus!
