//! The managed backend as the commands see it: its address and token, the boot
//! progress, the proxied requests, and plain file reads.

use crate::json::{fields, no_fields, opt_str, put, set_field, strs, Fields, Json, JsonV};
use crate::order::{in_order, insert_by, lemma_sorted_by, sorted_by};
use crate::outside::{
    base64_encode, base64_text, json_quote, json_quoted, lossy_text, lowercase, text_lossy,
    text_strict, to_lowercase, to_uppercase, uppercase,
};
use crate::paths::{extension, extension_of, file_name, file_name_of};
use crate::text::{
    after_prefix, before, dec, decimal, is_before, lemma_before_total, lemma_before_transitive,
    opt_text, or_empty, same, strip_prefix, texts, trim, trim_end_char, trim_end_of,
    trim_start_class, trim_start_of, trimmed, Class,
};
use vstd::prelude::*;
use vstd::utf8::{decode_utf8, valid_utf8};

verus! {

pub const DEFAULT_FETCH_TIMEOUT_MS: u64 = 20000;

/// How long a caller waits for the backend to announce its port.
pub const BACKEND_READY_TIMEOUT_SECS: u64 = 90;

/// The address that is assumed until the backend announces its own.
pub open spec fn default_backend_base() -> Seq<char> {
    "http://127.0.0.1:8080"@
}

// ---------------------------------------------------------------------------
// The backend
// ---------------------------------------------------------------------------

/// What is known of the managed backend.
pub struct BackendState {
    base_url: String,
    token: Option<String>,
    ready: bool,
}

#[verifier::ext_equal]
pub struct BackendV {
    pub base_url: Seq<char>,
    pub token: Option<Seq<char>>,
    pub ready: bool,
}

impl View for BackendState {
    type V = BackendV;

    closed spec fn view(&self) -> BackendV {
        BackendV { base_url: self.base_url@, token: opt_text(self.token), ready: self.ready }
    }
}

pub open spec fn token_of(token: Seq<char>) -> Option<Seq<char>> {
    if token.len() == 0 {
        None
    } else {
        Some(token)
    }
}

/// The base address without trailing slashes.
pub open spec fn bare_base(base: Seq<char>) -> Seq<char> {
    trim_end_of(base, Class::One('/'))
}

/// Before anything is announced.
pub open spec fn fresh_backend(env_token: Option<Seq<char>>) -> BackendV {
    BackendV { base_url: default_backend_base(), token: env_token, ready: false }
}

/// With a session token adopted.
pub open spec fn with_session(b: BackendV, token: Seq<char>) -> BackendV {
    BackendV { token: token_of(token), ..b }
}

/// With the address and the token that were announced.
pub open spec fn announced(url: Seq<char>, token: Seq<char>) -> BackendV {
    BackendV { base_url: url, token: token_of(token), ready: true }
}

/// The address to use, when there is one to use yet.
pub open spec fn awaited(b: BackendV, timed_out: bool) -> Option<Seq<char>> {
    if b.ready || timed_out {
        Some(bare_base(b.base_url))
    } else {
        None
    }
}

impl BackendState {
    /// Before anything is announced: the default address, and the token of the
    /// environment when there is one.
    pub fn new(env_token: Option<String>) -> (r: BackendState)
        ensures
            r@ == fresh_backend(opt_text(env_token)),
    {
        BackendState {
            base_url: "http://127.0.0.1:8080".to_string(),
            token: env_token,
            ready: false,
        }
    }

    /// Adopts a session token; an empty one means none.
    pub fn set_token(&mut self, token: String)
        ensures
            final(self)@ == with_session(old(self)@, token@),
    {
        if token.as_str().is_empty() {
            self.token = None;
        } else {
            self.token = Some(token);
        }
    }

    /// Records the announced address and token; from here on the backend is
    /// ready.
    pub fn mark_ready(&mut self, url: String, token: String)
        ensures
            final(self)@ == announced(url@, token@),
    {
        self.base_url = url;
        self.set_token(token);
        self.ready = true;
    }

    /// The address to use, once the backend is ready or the wait for it has
    /// ended; `None` while the caller should go on waiting.
    pub fn wait_ready(&self, timed_out: bool) -> (r: Option<String>)
        ensures
            opt_text(r) == awaited(self@, timed_out),
    {
        if self.ready || timed_out {
            Some(trim_end_char(&self.base_url, '/'))
        } else {
            None
        }
    }

    pub fn is_ready(&self) -> (r: bool)
        ensures
            r == self@.ready,
    {
        self.ready
    }

    /// The session token; empty when there is none.
    pub fn token_snapshot(&self) -> (r: String)
        ensures
            r@ == or_empty(self@.token),
    {
        match &self.token {
            Some(t) => t.clone(),
            None => {
                let t = String::new();
                assert(t@ =~= Seq::<char>::empty());
                t
            },
        }
    }

    /// The address as it stands, without trailing slashes.
    pub fn base_snapshot(&self) -> (r: String)
        ensures
            r@ == bare_base(self@.base_url),
    {
        trim_end_char(&self.base_url, '/')
    }
}

/// What was announced is what every later request uses.
pub proof fn law_announced_address_is_used(before: BackendV, url: Seq<char>, token: Seq<char>)
    requires
        url.len() > 0 ==> url.last() != '/',
        token.len() > 0,
    ensures
        ({
            let after = BackendV { base_url: url, token: token_of(token), ready: true };
            &&& after.ready
            &&& bare_base(after.base_url) == url
            &&& or_empty(after.token) == token
        }),
{
}

// ---------------------------------------------------------------------------
// WebSocket addresses
// ---------------------------------------------------------------------------

/// The `ws` form of an `http` address.
pub open spec fn ws_scheme(base: Seq<char>) -> Seq<char> {
    match after_prefix(base, "https://"@) {
        Some(rest) => "wss://"@ + rest,
        None => match after_prefix(base, "http://"@) {
            Some(rest) => "ws://"@ + rest,
            None => base,
        },
    }
}

pub fn to_ws_scheme(base: &str) -> (r: String)
    ensures
        r@ == ws_scheme(base@),
{
    if let Some(rest) = strip_prefix(base, "https://") {
        let mut out = "wss://".to_string();
        out.append(&rest);
        out
    } else if let Some(rest) = strip_prefix(base, "http://") {
        let mut out = "ws://".to_string();
        out.append(&rest);
        out
    } else {
        base.to_string()
    }
}

/// The gateway socket of a backend, with its token when there is one.
pub open spec fn ws_url_of(base: Seq<char>, token: Seq<char>) -> Seq<char> {
    if token.len() == 0 {
        ws_scheme(base) + "/api/ws"@
    } else {
        ws_scheme(base) + "/api/ws?token="@ + token
    }
}

pub fn entry_ws_url(base_url: &str, token: &str) -> (r: String)
    ensures
        r@ == ws_url_of(base_url@, token@),
{
    let mut out = to_ws_scheme(base_url);
    if token.is_empty() {
        out.append("/api/ws");
    } else {
        out.append("/api/ws?token=");
        out.append(token);
    }
    out
}

/// The descriptor of a backend that the renderer dials.
pub struct ConnectionInfo {
    pub base_url: String,
    pub token: String,
    pub ws_url: String,
    pub mode: String,
    pub auth_mode: String,
    pub source: String,
    pub logs: Vec<String>,
    pub profile: Option<String>,
    pub is_fullscreen: bool,
    pub native_overlay_width: i32,
    pub window_button_position: Option<Json>,
}

#[verifier::ext_equal]
pub struct ConnectionInfoV {
    pub base_url: Seq<char>,
    pub token: Seq<char>,
    pub ws_url: Seq<char>,
    pub mode: Seq<char>,
    pub auth_mode: Seq<char>,
    pub source: Seq<char>,
    pub logs: Seq<Seq<char>>,
    pub profile: Option<Seq<char>>,
    pub is_fullscreen: bool,
    pub native_overlay_width: i32,
    pub window_button_position: Option<JsonV>,
}

impl View for ConnectionInfo {
    type V = ConnectionInfoV;

    open spec fn view(&self) -> ConnectionInfoV {
        ConnectionInfoV {
            base_url: self.base_url@,
            token: self.token@,
            ws_url: self.ws_url@,
            mode: self.mode@,
            auth_mode: self.auth_mode@,
            source: self.source@,
            logs: texts(self.logs@),
            profile: opt_text(self.profile),
            is_fullscreen: self.is_fullscreen,
            native_overlay_width: self.native_overlay_width,
            window_button_position: match self.window_button_position {
                Some(j) => Some(j@),
                None => None,
            },
        }
    }
}

/// The descriptor of the managed backend.
pub open spec fn local_connection(b: BackendV, profile: Option<Seq<char>>) -> ConnectionInfoV {
    ConnectionInfoV {
        base_url: bare_base(b.base_url),
        token: or_empty(b.token),
        ws_url: ws_url_of(bare_base(b.base_url), or_empty(b.token)),
        mode: "local"@,
        auth_mode: "token"@,
        source: "local"@,
        logs: Seq::empty(),
        profile,
        is_fullscreen: false,
        native_overlay_width: 0,
        window_button_position: None,
    }
}

pub fn build_connection(state: &BackendState, profile: Option<String>) -> (r: ConnectionInfo)
    ensures
        r@ == local_connection(state@, opt_text(profile)),
{
    let base = state.base_snapshot();
    let token = state.token_snapshot();
    let ws_url = entry_ws_url(&base, &token);
    let logs: Vec<String> = Vec::new();
    assert(texts(logs@) =~= Seq::<Seq<char>>::empty());
    ConnectionInfo {
        base_url: base,
        token,
        ws_url,
        mode: "local".to_string(),
        auth_mode: "token".to_string(),
        source: "local".to_string(),
        logs,
        profile,
        is_fullscreen: false,
        native_overlay_width: 0,
        window_button_position: None,
    }
}

/// The fields of a descriptor, under the names the renderer reads.
pub open spec fn connection_fields(c: ConnectionInfoV) -> Fields {
    let o = put(no_fields(), "baseUrl"@, JsonV::Str(c.base_url));
    let o = put(o, "token"@, JsonV::Str(c.token));
    let o = put(o, "wsUrl"@, JsonV::Str(c.ws_url));
    let o = put(o, "mode"@, JsonV::Str(c.mode));
    let o = put(o, "authMode"@, JsonV::Str(c.auth_mode));
    let o = put(o, "source"@, JsonV::Str(c.source));
    let o = put(o, "logs"@, strs(c.logs));
    let o = put(o, "profile"@, opt_str(c.profile));
    let o = put(o, "isFullscreen"@, JsonV::Bool(c.is_fullscreen));
    let o = put(o, "nativeOverlayWidth"@, JsonV::Int(c.native_overlay_width as i64));
    put(
        o,
        "windowButtonPosition"@,
        match c.window_button_position {
            Some(j) => j,
            None => JsonV::Null,
        },
    )
}

impl ConnectionInfo {
    pub fn to_fields(&self) -> (r: Vec<(String, Json)>)
        ensures
            fields(r@) == connection_fields(self@),
    {
        let mut o: Vec<(String, Json)> = Vec::new();
        assert(fields(o@) =~= no_fields());
        set_field(&mut o, "baseUrl", Json::text(&self.base_url));
        set_field(&mut o, "token", Json::text(&self.token));
        set_field(&mut o, "wsUrl", Json::text(&self.ws_url));
        set_field(&mut o, "mode", Json::text(&self.mode));
        set_field(&mut o, "authMode", Json::text(&self.auth_mode));
        set_field(&mut o, "source", Json::text(&self.source));
        set_field(&mut o, "logs", Json::from_texts(&self.logs));
        set_field(&mut o, "profile", Json::from_opt(&self.profile));
        set_field(&mut o, "isFullscreen", Json::Bool(self.is_fullscreen));
        set_field(&mut o, "nativeOverlayWidth", Json::Int(self.native_overlay_width as i64));
        let position = match &self.window_button_position {
            Some(j) => j.dup(),
            None => Json::Null,
        };
        set_field(&mut o, "windowButtonPosition", position);
        o
    }
}

/// The answer to a request for a gateway address.
pub open spec fn ws_answer(ws_url: Seq<char>, base: Seq<char>) -> JsonV {
    JsonV::Obj(
        put(
            put(put(no_fields(), "ok"@, JsonV::Bool(true)), "wsUrl"@, JsonV::Str(ws_url)),
            "baseUrl"@,
            JsonV::Str(base),
        ),
    )
}

pub fn ws_answer_json(ws_url: &str, base: &str) -> (r: Json)
    ensures
        r@ == ws_answer(ws_url@, base@),
{
    broadcast use crate::json::group_json_views;

    let mut o: Vec<(String, Json)> = Vec::new();
    assert(fields(o@) =~= no_fields());
    set_field(&mut o, "ok", Json::Bool(true));
    set_field(&mut o, "wsUrl", Json::text(ws_url));
    set_field(&mut o, "baseUrl", Json::text(base));
    Json::Obj(o)
}

/// The gateway address of the managed backend.
pub open spec fn local_ws_answer(b: BackendV) -> JsonV {
    ws_answer(ws_url_of(bare_base(b.base_url), or_empty(b.token)), bare_base(b.base_url))
}

/// The gateway address of the managed backend, without waiting for it.
pub fn get_gateway_ws_url(state: &BackendState, profile: Option<String>) -> (r: Json)
    ensures
        r@ == local_ws_answer(state@),
{
    let conn = build_connection(state, profile);
    ws_answer_json(&conn.ws_url, &conn.base_url)
}

// ---------------------------------------------------------------------------
// Boot progress
// ---------------------------------------------------------------------------

/// One step of the boot, as the renderer shows it.
pub struct BootProgress {
    pub error: Option<String>,
    pub fake_mode: bool,
    pub message: String,
    pub phase: String,
    pub progress: u8,
    pub running: bool,
    pub timestamp: i64,
}

#[verifier::ext_equal]
pub struct BootV {
    pub error: Option<Seq<char>>,
    pub fake_mode: bool,
    pub message: Seq<char>,
    pub phase: Seq<char>,
    pub progress: u8,
    pub running: bool,
    pub timestamp: i64,
}

impl View for BootProgress {
    type V = BootV;

    open spec fn view(&self) -> BootV {
        BootV {
            error: opt_text(self.error),
            fake_mode: self.fake_mode,
            message: self.message@,
            phase: self.phase@,
            progress: self.progress,
            running: self.running,
            timestamp: self.timestamp,
        }
    }
}

pub open spec fn boot_starting(now: i64) -> BootV {
    BootV {
        error: None,
        fake_mode: false,
        message: "Waiting to start Hermes backend"@,
        phase: "backend.starting"@,
        progress: 20,
        running: true,
        timestamp: now,
    }
}

pub open spec fn boot_installing(now: i64) -> BootV {
    BootV {
        error: None,
        fake_mode: false,
        message: "Installing Hermes backend (first run)"@,
        phase: "backend.installing"@,
        progress: 30,
        running: true,
        timestamp: now,
    }
}

pub open spec fn boot_ready(now: i64) -> BootV {
    BootV {
        error: None,
        fake_mode: false,
        message: "Backend ready"@,
        phase: "backend.ready"@,
        progress: 90,
        running: false,
        timestamp: now,
    }
}

pub open spec fn boot_failed(message: Seq<char>, now: i64) -> BootV {
    BootV {
        error: Some(message),
        fake_mode: false,
        message,
        phase: "backend.failed"@,
        progress: 95,
        running: false,
        timestamp: now,
    }
}

impl BootProgress {
    pub fn starting(now_ms: i64) -> (r: BootProgress)
        ensures
            r@ == boot_starting(now_ms),
    {
        BootProgress {
            error: None,
            fake_mode: false,
            message: "Waiting to start Hermes backend".to_string(),
            phase: "backend.starting".to_string(),
            progress: 20,
            running: true,
            timestamp: now_ms,
        }
    }

    pub fn installing(now_ms: i64) -> (r: BootProgress)
        ensures
            r@ == boot_installing(now_ms),
    {
        BootProgress {
            error: None,
            fake_mode: false,
            message: "Installing Hermes backend (first run)".to_string(),
            phase: "backend.installing".to_string(),
            progress: 30,
            running: true,
            timestamp: now_ms,
        }
    }

    pub fn ready(now_ms: i64) -> (r: BootProgress)
        ensures
            r@ == boot_ready(now_ms),
    {
        BootProgress {
            error: None,
            fake_mode: false,
            message: "Backend ready".to_string(),
            phase: "backend.ready".to_string(),
            progress: 90,
            running: false,
            timestamp: now_ms,
        }
    }

    pub fn error(message: String, now_ms: i64) -> (r: BootProgress)
        ensures
            r@ == boot_failed(message@, now_ms),
    {
        BootProgress {
            error: Some(message.clone()),
            fake_mode: false,
            message,
            phase: "backend.failed".to_string(),
            progress: 95,
            running: false,
            timestamp: now_ms,
        }
    }
}

/// Starting until the backend is ready, then ready.
pub open spec fn boot_of(b: BackendV, now: i64) -> BootV {
    if b.ready {
        boot_ready(now)
    } else {
        boot_starting(now)
    }
}

pub fn boot_progress_snapshot(state: &BackendState, now_ms: i64) -> (r: BootProgress)
    ensures
        r@ == boot_of(state@, now_ms),
{
    if state.is_ready() {
        BootProgress::ready(now_ms)
    } else {
        BootProgress::starting(now_ms)
    }
}

/// The phases of a boot show growing progress, and it runs until it is ready
/// or has failed.
pub proof fn law_boot_progress_grows(message: Seq<char>, t: i64)
    ensures
        boot_starting(t).progress < boot_installing(t).progress < boot_ready(t).progress
            < boot_failed(message, t).progress <= 100,
        boot_starting(t).running && boot_installing(t).running,
        !boot_ready(t).running && !boot_failed(message, t).running,
        boot_failed(message, t).error == Some(message),
{
}

// ---------------------------------------------------------------------------
// Proxied requests
// ---------------------------------------------------------------------------

/// A file to upload.
pub struct UploadPayload {
    pub filename: String,
    pub content_type: Option<String>,
    pub bytes: Vec<u8>,
}

/// A request of the renderer to a backend.
pub struct ApiRequest {
    pub path: String,
    pub method: Option<String>,
    pub body: Option<Json>,
    pub upload: Option<UploadPayload>,
    pub timeout_ms: Option<u64>,
    pub profile: Option<String>,
    pub connection_id: Option<String>,
}

#[derive(Clone, Copy, Debug, PartialEq, Eq, Structural)]
pub enum Verb {
    Get,
    Post,
    Put,
    Patch,
    Delete,
}

/// The registered connection that a request names; `None` for the managed
/// backend.
pub open spec fn scoped_connection(id: Option<Seq<char>>) -> Option<Seq<char>> {
    match id {
        Some(c) => if trimmed(c).len() > 0 && trimmed(c) != "local"@ {
            Some(trimmed(c))
        } else {
            None
        },
        None => None,
    }
}

pub fn request_connection(id: &Option<String>) -> (r: Option<String>)
    ensures
        opt_text(r) == scoped_connection(opt_text(*id)),
{
    match id {
        Some(c) => {
            let t = trim(c);
            if !t.as_str().is_empty() && !same(&t, "local") {
                Some(t)
            } else {
                None
            }
        },
        None => None,
    }
}

/// The verb of a method name; anything unknown is a plain read.
pub open spec fn verb_of(method: Seq<char>) -> Verb {
    if method == "POST"@ {
        Verb::Post
    } else if method == "PUT"@ {
        Verb::Put
    } else if method == "PATCH"@ {
        Verb::Patch
    } else if method == "DELETE"@ {
        Verb::Delete
    } else {
        Verb::Get
    }
}

pub fn verb_for(method: &str) -> (r: Verb)
    ensures
        r == verb_of(method@),
{
    if same(method, "POST") {
        Verb::Post
    } else if same(method, "PUT") {
        Verb::Put
    } else if same(method, "PATCH") {
        Verb::Patch
    } else if same(method, "DELETE") {
        Verb::Delete
    } else {
        Verb::Get
    }
}

/// What a request carries.
#[derive(Clone, Copy, Debug, PartialEq, Eq, Structural)]
pub enum Carries {
    Upload,
    Body,
    Nothing,
}

/// A request, ready to be sent.
pub struct RequestPlan {
    pub url: String,
    pub verb: Verb,
    pub timeout_ms: u64,
    /// Header names and values, in the order in which they are set.
    pub headers: Vec<(String, String)>,
    pub carries: Carries,
}

pub open spec fn header_views(v: Seq<(String, String)>) -> Seq<(Seq<char>, Seq<char>)> {
    v.map_values(|p: (String, String)| (p.0@, p.1@))
}

pub open spec fn token_header(token: Seq<char>) -> Seq<(Seq<char>, Seq<char>)> {
    if token.len() == 0 {
        Seq::empty()
    } else {
        seq![("X-Hermes-Session-Token"@, token)]
    }
}

/// The address of a path below a base.
pub open spec fn api_url(base: Seq<char>, path: Seq<char>) -> Seq<char> {
    base + "/"@ + trim_start_of(path, Class::One('/'))
}

/// Copies a list of headers behind another.
pub fn append_headers(out: &mut Vec<(String, String)>, more: &Vec<(String, String)>)
    ensures
        header_views(final(out)@) == header_views(old(out)@) + header_views(more@),
{
    let ghost start = header_views(out@);
    let ghost all = header_views(more@);
    let mut i: usize = 0;
    assert(start + all.take(0) =~= start);
    while i < more.len()
        invariant
            i <= more@.len(),
            all == header_views(more@),
            header_views(out@) == start + all.take(i as int),
        decreases more@.len() - i,
    {
        let ghost so_far = header_views(out@);
        let pair = (more[i].0.clone(), more[i].1.clone());
        out.push(pair);
        assert(header_views(out@) == so_far.push((pair.0@, pair.1@)));
        assert(all.take(i + 1) == all.take(i as int).push(all[i as int]));
        i += 1;
    }
    assert(all.take(i as int) == all);
}

/// The verb that a request names; a request that names none reads.
pub open spec fn planned_verb(method: Option<Seq<char>>) -> Verb {
    verb_of(
        uppercase(
            match method {
                Some(m) => m,
                None => "GET"@,
            },
        ),
    )
}

/// How long a request may take.
pub open spec fn planned_timeout(timeout_ms: Option<u64>) -> u64 {
    match timeout_ms {
        Some(t) => t,
        None => 20000u64,
    }
}

/// The headers of a request: the token, then the others.
pub open spec fn planned_headers(
    token: Seq<char>,
    extra: Seq<(Seq<char>, Seq<char>)>,
) -> Seq<(Seq<char>, Seq<char>)> {
    token_header(token) + extra
}

/// A file goes before a body.
pub open spec fn planned_load(upload: bool, body: bool) -> Carries {
    if upload {
        Carries::Upload
    } else if body {
        Carries::Body
    } else {
        Carries::Nothing
    }
}

/// Turns a request into what is sent to the backend at `base`. A file goes
/// before a body.
pub fn plan_request(
    request: &ApiRequest,
    base: &str,
    token: &str,
    extra_headers: &Vec<(String, String)>,
) -> (r: RequestPlan)
    ensures
        r.url@ == api_url(base@, request.path@),
        r.verb == planned_verb(opt_text(request.method)),
        r.timeout_ms == planned_timeout(request.timeout_ms),
        header_views(r.headers@) == planned_headers(token@, header_views(extra_headers@)),
        r.carries == planned_load(request.upload is Some, request.body is Some),
{
    let mut url = base.to_string();
    url.append("/");
    url.append(&trim_start_class(&request.path, Class::One('/')));
    let method = match &request.method {
        Some(m) => to_uppercase(m),
        None => to_uppercase("GET"),
    };
    let timeout_ms: u64 = match request.timeout_ms {
        Some(t) => t,
        None => DEFAULT_FETCH_TIMEOUT_MS,
    };
    let mut headers: Vec<(String, String)> = Vec::new();
    if !token.is_empty() {
        headers.push(("X-Hermes-Session-Token".to_string(), token.to_string()));
    }
    assert(header_views(headers@) =~= token_header(token@));
    append_headers(&mut headers, extra_headers);
    let carries = if request.upload.is_some() {
        Carries::Upload
    } else if request.body.is_some() {
        Carries::Body
    } else {
        Carries::Nothing
    };
    RequestPlan { url, verb: verb_for(&method), timeout_ms, headers, carries }
}

/// The content type of an upload that may name none.
pub open spec fn upload_type(content_type: Option<Seq<char>>) -> Seq<char> {
    match content_type {
        Some(t) => t,
        None => "application/octet-stream"@,
    }
}

pub fn upload_content_type(upload: &UploadPayload) -> (r: String)
    ensures
        r@ == upload_type(opt_text(upload.content_type)),
{
    match &upload.content_type {
        Some(t) => t.clone(),
        None => "application/octet-stream".to_string(),
    }
}

pub open spec fn success(status: u16) -> bool {
    200 <= status <= 299
}

pub open spec fn json_result(r: Result<Json, String>) -> Result<JsonV, Seq<char>> {
    match r {
        Ok(j) => Ok(j@),
        Err(e) => Err(e@),
    }
}

/// What a reply amounts to: an error with its body for a failure status, the
/// value of its JSON, or its raw text in an error when it is no JSON. `parsed`
/// is the value that the bytes spell, when they spell one.
pub open spec fn outcome_of(status: u16, bytes: Seq<u8>, parsed: Option<JsonV>) -> Result<
    JsonV,
    Seq<char>,
> {
    if !success(status) {
        Err("backend "@ + dec(status as nat) + ": "@ + lossy_text(bytes))
    } else {
        match parsed {
            Some(j) => Ok(j),
            None => Err("{\"raw\":"@ + json_quoted(lossy_text(bytes)) + "}"@),
        }
    }
}

pub fn api_outcome(status: u16, bytes: &Vec<u8>, parsed: Option<Json>) -> (r: Result<Json, String>)
    ensures
        json_result(r) == outcome_of(status, bytes@, crate::registry::opt_json(parsed)),
{
    if status < 200 || status > 299 {
        let mut e = "backend ".to_string();
        e.append(&decimal(status as u128));
        e.append(": ");
        e.append(&text_lossy(bytes));
        return Err(e);
    }
    match parsed {
        Some(j) => Ok(j),
        None => {
            let mut e = "{\"raw\":".to_string();
            e.append(&json_quote(&text_lossy(bytes)));
            e.append("}");
            Err(e)
        },
    }
}

// ---------------------------------------------------------------------------
// Build metadata
// ---------------------------------------------------------------------------

pub struct VersionInfo {
    pub app_version: String,
    pub platform: String,
    pub hermes_root: String,
}

/// Build metadata; an unset root is empty.
pub fn get_version(
    app_version: String,
    platform: String,
    hermes_root: &Option<String>,
) -> (r: VersionInfo)
    ensures
        r.app_version == app_version,
        r.platform == platform,
        r.hermes_root@ == or_empty(opt_text(*hermes_root)),
{
    let root = match hermes_root {
        Some(h) => h.clone(),
        None => String::new(),
    };
    assert(root@ =~= or_empty(opt_text(*hermes_root)));
    VersionInfo { app_version, platform, hermes_root: root }
}

// ---------------------------------------------------------------------------
// Directory listings
// ---------------------------------------------------------------------------

pub struct DirEntry {
    pub name: String,
    pub path: String,
    pub is_directory: bool,
}

pub struct ReadDirResult {
    pub entries: Vec<DirEntry>,
    pub error: Option<String>,
}

#[verifier::ext_equal]
pub struct DirEntryV {
    pub name: Seq<char>,
    pub path: Seq<char>,
    pub is_directory: bool,
}

impl View for DirEntry {
    type V = DirEntryV;

    open spec fn view(&self) -> DirEntryV {
        DirEntryV { name: self.name@, path: self.path@, is_directory: self.is_directory }
    }
}

pub open spec fn entry_views(v: Seq<DirEntry>) -> Seq<DirEntryV> {
    v.map_values(|e: DirEntry| e@)
}

/// Directories come first, then names regardless of case.
pub open spec fn entry_before(a: DirEntryV, b: DirEntryV) -> bool {
    if a.is_directory != b.is_directory {
        a.is_directory
    } else {
        before(lowercase(a.name), lowercase(b.name))
    }
}

/// The listing order on entries.
pub open spec fn entry_order() -> spec_fn(DirEntryV, DirEntryV) -> bool {
    |a: DirEntryV, b: DirEntryV| entry_before(a, b)
}

/// A listing holds exactly the entries that were read, directories first and
/// names in order.
pub proof fn law_listing_is_sorted(v: Seq<DirEntryV>)
    ensures
        in_order(sorted_by(v, entry_order()), entry_order()),
        sorted_by(v, entry_order()).to_multiset() == v.to_multiset(),
{
    let less = entry_order();
    assert forall|a: DirEntryV, b: DirEntryV| #[trigger] less(a, b) implies !less(b, a) by {
        lemma_before_total(lowercase(a.name), lowercase(b.name));
    }
    assert forall|a: DirEntryV, b: DirEntryV, c: DirEntryV|
        #![trigger less(b, a), less(c, b)]
        !less(b, a) && !less(c, b) implies !less(c, a) by {
        if a.is_directory == b.is_directory && b.is_directory == c.is_directory {
            lemma_before_transitive(lowercase(a.name), lowercase(b.name), lowercase(c.name));
        }
    }
    lemma_sorted_by(v, less);
}

fn comes_before(a: &DirEntry, b: &DirEntry) -> (r: bool)
    ensures
        r == entry_before(a@, b@),
{
    if a.is_directory != b.is_directory {
        a.is_directory
    } else {
        is_before(&to_lowercase(&a.name), &to_lowercase(&b.name))
    }
}

fn insert_in_order(v: &mut Vec<DirEntry>, e: DirEntry)
    ensures
        entry_views(final(v)@) == insert_by(entry_views(old(v)@), e@, entry_order()),
{
    let ghost start = v@;
    let ghost s = entry_views(start);
    let ghost x = e@;
    let ghost less = entry_order();
    let mut n: usize = v.len();
    assert(s.take(n as int) =~= s);
    assert(insert_by(s.take(n as int), x, less) + s.skip(n as int) =~= insert_by(s, x, less));
    while n > 0 && comes_before(&e, &v[n - 1])
        invariant
            n <= v@.len(),
            v@ == start,
            start == old(v)@,
            s == entry_views(start),
            x == e@,
            less == entry_order(),
            insert_by(s, x, less) == insert_by(s.take(n as int), x, less) + s.skip(n as int),
        decreases n,
    {
        let ghost t = s.take(n as int);
        assert(t.drop_last() =~= s.take(n - 1));
        assert(t.last() == v@[n - 1]@);
        assert(insert_by(t, x, less) + s.skip(n as int) =~= insert_by(s.take(n - 1), x, less) + s.skip(
            n - 1,
        ));
        n -= 1;
    }
    let ghost t = s.take(n as int);
    assert(n > 0 ==> t.last() == v@[n - 1]@);
    v.insert(n, e);
    assert(entry_views(v@) =~= t.push(x) + s.skip(n as int));
}

/// The entries of a directory in the order in which they are listed.
pub open spec fn listing_of(found: Seq<DirEntryV>) -> Seq<DirEntryV> {
    sorted_by(found, entry_order())
}

/// The listing of a directory; `None` stands for one that cannot be read.
pub fn read_dir(dir_path: &str, found: Option<Vec<DirEntry>>) -> (r: ReadDirResult)
    ensures
        match found {
            None => r.entries@.len() == 0 && opt_text(r.error) == Some(
                "cannot read directory: "@ + dir_path@,
            ),
            Some(v) => entry_views(r.entries@) == listing_of(entry_views(v@)) && r.error is None,
        },
{
    match found {
        None => {
            let mut e = "cannot read directory: ".to_string();
            e.append(dir_path);
            ReadDirResult { entries: Vec::new(), error: Some(e) }
        },
        Some(v) => {
            let mut out: Vec<DirEntry> = Vec::new();
            let ghost all = entry_views(v@);
            assert(entry_views(out@) =~= sorted_by(all.take(0), entry_order()));
            let mut i: usize = 0;
            while i < v.len()
                invariant
                    i <= v@.len(),
                    all == entry_views(v@),
                    entry_views(out@) == sorted_by(all.take(i as int), entry_order()),
                decreases v@.len() - i,
            {
                let e = DirEntry {
                    name: v[i].name.clone(),
                    path: v[i].path.clone(),
                    is_directory: v[i].is_directory,
                };
                assert(e@ == all[i as int]);
                assert(all.take(i + 1).drop_last() =~= all.take(i as int));
                insert_in_order(&mut out, e);
                i += 1;
            }
            assert(all.take(i as int) =~= all);
            ReadDirResult { entries: out, error: None }
        },
    }
}

// ---------------------------------------------------------------------------
// File contents
// ---------------------------------------------------------------------------

pub struct ReadFileTextResult {
    pub path: String,
    pub text: String,
    pub mime_type: Option<String>,
    pub language: Option<String>,
    pub byte_size: Option<u64>,
    pub binary: Option<bool>,
    pub truncated: Option<bool>,
}

/// A file as text. Bytes that are no UTF-8 are reported as binary, with no
/// text.
pub fn read_file_text(file_path: String, data: Vec<u8>) -> (r: ReadFileTextResult)
    ensures
        r.path == file_path,
        r.byte_size == Some(data@.len() as u64),
        r.binary == Some(!valid_utf8(data@)),
        valid_utf8(data@) ==> r.text@ == decode_utf8(data@) && r.mime_type is None,
        !valid_utf8(data@) ==> r.text@.len() == 0 && opt_text(r.mime_type) == Some(
            "application/octet-stream"@,
        ),
        r.language is None,
        r.truncated is None,
{
    let size: u64 = data.len() as u64;
    match text_strict(data) {
        Some(text) => ReadFileTextResult {
            path: file_path,
            text,
            mime_type: None,
            language: None,
            byte_size: Some(size),
            binary: Some(false),
            truncated: None,
        },
        None => ReadFileTextResult {
            path: file_path,
            text: String::new(),
            mime_type: Some("application/octet-stream".to_string()),
            language: None,
            byte_size: Some(size),
            binary: Some(true),
            truncated: None,
        },
    }
}

/// The MIME type of a known extension in lower case.
pub open spec fn known_mime(ext: Seq<char>) -> Seq<char> {
    if ext == "png"@ {
        "image/png"@
    } else if ext == "jpg"@ || ext == "jpeg"@ {
        "image/jpeg"@
    } else if ext == "gif"@ {
        "image/gif"@
    } else if ext == "webp"@ {
        "image/webp"@
    } else if ext == "svg"@ {
        "image/svg+xml"@
    } else if ext == "pdf"@ {
        "application/pdf"@
    } else if ext == "txt"@ || ext == "md"@ || ext == "log"@ {
        "text/plain"@
    } else if ext == "json"@ {
        "application/json"@
    } else if ext == "html"@ || ext == "htm"@ {
        "text/html"@
    } else if ext == "css"@ {
        "text/css"@
    } else if ext == "js"@ || ext == "mjs"@ || ext == "ts"@ || ext == "tsx"@ || ext == "jsx"@ {
        "text/javascript"@
    } else {
        "application/octet-stream"@
    }
}

pub fn mime_for_known_ext(ext: &str) -> (r: String)
    ensures
        r@ == known_mime(ext@),
{
    if same(ext, "png") {
        "image/png".to_string()
    } else if same(ext, "jpg") || same(ext, "jpeg") {
        "image/jpeg".to_string()
    } else if same(ext, "gif") {
        "image/gif".to_string()
    } else if same(ext, "webp") {
        "image/webp".to_string()
    } else if same(ext, "svg") {
        "image/svg+xml".to_string()
    } else if same(ext, "pdf") {
        "application/pdf".to_string()
    } else if same(ext, "txt") || same(ext, "md") || same(ext, "log") {
        "text/plain".to_string()
    } else if same(ext, "json") {
        "application/json".to_string()
    } else if same(ext, "html") || same(ext, "htm") {
        "text/html".to_string()
    } else if same(ext, "css") {
        "text/css".to_string()
    } else if same(ext, "js") || same(ext, "mjs") || same(ext, "ts") || same(ext, "tsx") || same(
        ext,
        "jsx",
    ) {
        "text/javascript".to_string()
    } else {
        "application/octet-stream".to_string()
    }
}

/// The extension of the file that a path ends in; empty when there is none.
pub open spec fn path_extension(path: Seq<char>, windows: bool) -> Seq<char> {
    match file_name_of(path, windows) {
        Some(n) => or_empty(extension_of(n)),
        None => Seq::empty(),
    }
}

/// The MIME type of a file by its extension, in any case.
pub fn guess_mime(path: &str, windows: bool) -> (r: String)
    ensures
        r@ == known_mime(lowercase(path_extension(path@, windows))),
{
    let ext = match file_name(path, windows) {
        Some(n) => match extension(&n) {
            Some(e) => e,
            None => String::new(),
        },
        None => String::new(),
    };
    assert(ext@ =~= path_extension(path@, windows));
    mime_for_known_ext(&to_lowercase(&ext))
}

/// A file as a data URL.
pub open spec fn data_url_of(path: Seq<char>, windows: bool, data: Seq<u8>) -> Seq<char> {
    "data:"@ + known_mime(lowercase(path_extension(path, windows))) + ";base64,"@ + base64_text(data)
}

pub fn read_file_data_url(file_path: &str, windows: bool, data: &Vec<u8>) -> (r: String)
    ensures
        r@ == data_url_of(file_path@, windows, data@),
{
    let mut out = "data:".to_string();
    out.append(&guess_mime(file_path, windows));
    out.append(";base64,");
    out.append(&base64_encode(data));
    out
}

} // verus!
