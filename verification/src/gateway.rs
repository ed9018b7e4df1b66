//! The managed backend process: where it is found, how it is started, how it
//! announces itself, and when it is started again.

use crate::commands::{BackendState, BackendV};
use crate::json::{fields, no_fields, put, set_field, Json, JsonV};
use crate::outside::{base64_url_encode, base64_url_text, random_bytes};
use crate::text::{
    chars_of, copy_texts, dec, decimal, ends, ends_with, find_chars, find_of, opt_text,
    parse_nat_of, parse_u64, text_range, texts, trim, trimmed, words, words_of, Class,
};
use vstd::prelude::*;

verus! {

// ---------------------------------------------------------------------------
// Finding the backend
// ---------------------------------------------------------------------------

/// A program that may be there, with the arguments that come before `serve`.
pub struct Candidate {
    pub program: String,
    pub pre_args: Vec<String>,
    /// Whether everything that it needs is on disk.
    pub usable: bool,
}

/// How the backend is launched.
pub struct HermesLaunch {
    pub program: String,
    pub pre_args: Vec<String>,
}

#[verifier::ext_equal]
pub struct LaunchV {
    pub program: Seq<char>,
    pub pre_args: Seq<Seq<char>>,
}

impl View for HermesLaunch {
    type V = LaunchV;

    open spec fn view(&self) -> LaunchV {
        LaunchV { program: self.program@, pre_args: texts(self.pre_args@) }
    }
}

pub open spec fn candidate_views(v: Seq<Candidate>) -> Seq<(LaunchV, bool)> {
    v.map_values(
        |c: Candidate| (LaunchV { program: c.program@, pre_args: texts(c.pre_args@) }, c.usable),
    )
}

/// The first candidate that can be used.
pub open spec fn first_usable(v: Seq<(LaunchV, bool)>) -> Option<LaunchV>
    decreases v.len(),
{
    if v.len() == 0 {
        None
    } else if v[0].1 {
        Some(v[0].0)
    } else {
        first_usable(v.drop_first())
    }
}

pub open spec fn opt_launch(o: Option<HermesLaunch>) -> Option<LaunchV> {
    match o {
        Some(l) => Some(l@),
        None => None,
    }
}

/// Chooses among candidates, in their order.
pub fn choose_launch(v: &Vec<Candidate>) -> (r: Option<HermesLaunch>)
    ensures
        opt_launch(r) == first_usable(candidate_views(v@)),
{
    let ghost all = candidate_views(v@);
    let mut i: usize = 0;
    assert(all.skip(0) =~= all);
    while i < v.len()
        invariant
            i <= v@.len(),
            all == candidate_views(v@),
            first_usable(all) == first_usable(all.skip(i as int)),
        decreases v@.len() - i,
    {
        assert(all.skip(i as int)[0] == all[i as int]);
        assert(all.skip(i as int).drop_first() =~= all.skip(i + 1));
        if v[i].usable {
            return Some(
                HermesLaunch {
                    program: v[i].program.clone(),
                    pre_args: copy_texts(&v[i].pre_args),
                },
            );
        }
        i += 1;
    }
    None
}

/// Locates the backend: a bundled one first, then the one that the environment
/// names, the one in the home directory, and those on the path.
pub open spec fn located(
    bundled: Seq<(LaunchV, bool)>,
    named: Seq<(LaunchV, bool)>,
    at_home: Seq<(LaunchV, bool)>,
    on_path: Seq<(LaunchV, bool)>,
) -> Option<LaunchV> {
    first_usable(bundled + named + at_home + on_path)
}

pub fn resolve_hermes_binary(
    bundled: &Vec<Candidate>,
    named: &Vec<Candidate>,
    at_home: &Vec<Candidate>,
    on_path: &Vec<Candidate>,
) -> (r: Option<HermesLaunch>)
    ensures
        opt_launch(r) == located(
            candidate_views(bundled@),
            candidate_views(named@),
            candidate_views(at_home@),
            candidate_views(on_path@),
        ),
{
    proof {
        let a = candidate_views(bundled@);
        let b = candidate_views(named@);
        let c = candidate_views(at_home@);
        let d = candidate_views(on_path@);
        lemma_first_usable(a, b + c + d);
        lemma_first_usable(b, c + d);
        lemma_first_usable(c, d);
        assert(a + b + c + d =~= a + (b + c + d));
        assert(b + c + d =~= b + (c + d));
    }
    if let Some(l) = choose_launch(bundled) {
        return Some(l);
    }
    if let Some(l) = choose_launch(named) {
        return Some(l);
    }
    if let Some(l) = choose_launch(at_home) {
        return Some(l);
    }
    choose_launch(on_path)
}

pub proof fn lemma_first_usable(a: Seq<(LaunchV, bool)>, b: Seq<(LaunchV, bool)>)
    ensures
        first_usable(a + b) == (match first_usable(a) {
            Some(l) => Some(l),
            None => first_usable(b),
        }),
    decreases a.len(),
{
    if a.len() == 0 {
        assert(a + b =~= b);
    } else {
        assert((a + b)[0] == a[0]);
        assert((a + b).drop_first() =~= a.drop_first() + b);
        lemma_first_usable(a.drop_first(), b);
    }
}

/// A bundled backend is used before any other.
pub proof fn law_bundled_backend_comes_first(
    bundled: Seq<(LaunchV, bool)>,
    others: Seq<(LaunchV, bool)>,
)
    requires
        first_usable(bundled) is Some,
    ensures
        first_usable(bundled + others) == first_usable(bundled),
{
    lemma_first_usable(bundled, others);
}

/// What is tried to install the backend: the default index, then a mirror.
pub enum InstallStep {
    /// Run the installer, with this index when one is given.
    Try(Option<String>),
    /// It is installed, and can be looked for again.
    Installed,
    Failed,
}

pub enum InstallStepV {
    Try(Option<Seq<char>>),
    Installed,
    Failed,
}

impl View for InstallStep {
    type V = InstallStepV;

    open spec fn view(&self) -> InstallStepV {
        match self {
            InstallStep::Try(i) => InstallStepV::Try(opt_text(*i)),
            InstallStep::Installed => InstallStepV::Installed,
            InstallStep::Failed => InstallStepV::Failed,
        }
    }
}

/// `tried` says of each try so far whether it succeeded.
pub open spec fn install_of(tried: Seq<bool>) -> InstallStepV {
    if tried.len() > 0 && tried.last() {
        InstallStepV::Installed
    } else if tried.len() == 0 {
        InstallStepV::Try(None)
    } else if tried.len() == 1 {
        InstallStepV::Try(Some("https://pypi.tuna.tsinghua.edu.cn/simple"@))
    } else {
        InstallStepV::Failed
    }
}

pub fn bootstrap_backend(tried: &Vec<bool>) -> (r: InstallStep)
    ensures
        r@ == install_of(tried@),
{
    let n: usize = tried.len();
    if n > 0 && tried[n - 1] {
        InstallStep::Installed
    } else if n == 0 {
        InstallStep::Try(None)
    } else if n == 1 {
        InstallStep::Try(Some("https://pypi.tuna.tsinghua.edu.cn/simple".to_string()))
    } else {
        InstallStep::Failed
    }
}

// ---------------------------------------------------------------------------
// Starting the backend
// ---------------------------------------------------------------------------

/// A random session token: the URL-safe base64 form of thirty-two random bytes.
pub fn generate_session_token() -> (r: String)
    ensures
        exists|b: Seq<u8>| b.len() == 32 && r@ == #[trigger] base64_url_text(b),
{
    let b = random_bytes(32);
    base64_url_encode(&b)
}

/// The arguments of the backend: its own first, then those of `serve` on a free
/// local port.
pub open spec fn serve_args_of(pre: Seq<Seq<char>>) -> Seq<Seq<char>> {
    pre + seq!["serve"@, "--host"@, "127.0.0.1"@, "--port"@, "0"@]
}

pub fn gateway_args(launch: &HermesLaunch) -> (r: Vec<String>)
    ensures
        texts(r@) == serve_args_of(launch@.pre_args),
{
    let mut v = copy_texts(&launch.pre_args);
    v.push("serve".to_string());
    v.push("--host".to_string());
    v.push("127.0.0.1".to_string());
    v.push("--port".to_string());
    v.push("0".to_string());
    assert(texts(v@) =~= serve_args_of(launch@.pre_args));
    v
}

pub open spec fn pairs(v: Seq<(String, String)>) -> Seq<(Seq<char>, Seq<char>)> {
    v.map_values(|p: (String, String)| (p.0@, p.1@))
}

/// The environment of the backend: headless, with the session token pinned.
pub open spec fn gateway_env_of(token: Seq<char>) -> Seq<(Seq<char>, Seq<char>)> {
    seq![
        ("HERMES_DESKTOP"@, "1"@),
        ("HERMES_SERVE_HEADLESS"@, "1"@),
        ("HERMES_DASHBOARD_SESSION_TOKEN"@, token),
        ("PYTHONUTF8"@, "1"@),
        ("PYTHONDONTWRITEBYTECODE"@, "1"@),
    ]
}

pub fn gateway_env(token: &str) -> (r: Vec<(String, String)>)
    ensures
        pairs(r@) == gateway_env_of(token@),
{
    let mut v: Vec<(String, String)> = Vec::new();
    v.push(("HERMES_DESKTOP".to_string(), "1".to_string()));
    v.push(("HERMES_SERVE_HEADLESS".to_string(), "1".to_string()));
    v.push(("HERMES_DASHBOARD_SESSION_TOKEN".to_string(), token.to_string()));
    v.push(("PYTHONUTF8".to_string(), "1".to_string()));
    v.push(("PYTHONDONTWRITEBYTECODE".to_string(), "1".to_string()));
    assert(pairs(v@) =~= gateway_env_of(token@));
    v
}

// ---------------------------------------------------------------------------
// The announcement
// ---------------------------------------------------------------------------

/// The port that a line announces: a known mark, then `port=` and a number.
pub open spec fn announced_port(line: Seq<char>) -> Option<nat> {
    let t = trimmed(line);
    match find_of(t, "port="@) {
        None => None,
        Some(i) => {
            let mark = trimmed(t.take(i));
            let rest = words_of(t.skip(i + 5), Class::White);
            if !ends(mark, "HERMES_BACKEND_READY"@) && !ends(mark, "HERMES_DASHBOARD_READY"@) {
                None
            } else if rest.len() == 0 {
                None
            } else {
                match parse_nat_of(rest[0], 10) {
                    Some(n) => if n <= u16::MAX {
                        Some(n)
                    } else {
                        None
                    },
                    None => None,
                }
            }
        },
    }
}

pub fn parse_ready_port(line: &str) -> (r: Option<u16>)
    ensures
        announced_port(line@) == (match r {
            Some(p) => Some(p as nat),
            None => None,
        }),
{
    let t = trim(line);
    let v = chars_of(&t);
    let key = chars_of("port=");
    proof {
        reveal_strlit("port=");
        assert(key@.len() == 5);
        assert(t@ == v@);
    }
    match find_chars(&v, &key, 0) {
        None => None,
        Some(i) => {
            let mark = trim(&text_range(&v, 0, i));
            assert(v@.subrange(0, i as int) =~= t@.take(i as int));
            if !ends_with(&mark, "HERMES_BACKEND_READY") && !ends_with(
                &mark,
                "HERMES_DASHBOARD_READY",
            ) {
                return None;
            }
            assert(crate::text::occurs_at(v@, key@, i as int));
            let n: usize = v.len();
            let tail = text_range(&v, i + 5, n);
            assert(v@.subrange(i + 5, v@.len() as int) =~= t@.skip(i + 5));
            let rest = words(&tail, Class::White);
            if rest.len() == 0 {
                assert(texts(rest@).len() == 0);
                return None;
            }
            assert(texts(rest@)[0] == rest@[0]@);
            match parse_u64(&rest[0], 10) {
                Some(n) => if n <= 65535 {
                    Some(n as u16)
                } else {
                    None
                },
                None => None,
            }
        },
    }
}

/// How long an announcement is waited for.
pub const PORT_ANNOUNCE_TIMEOUT_MS: u64 = 90000;

/// What the reader of a backend's output does next.
pub enum Announce {
    /// Read on.
    Wait,
    /// The backend is at this address.
    Ready(String),
    /// It did not announce itself: the default target is taken, and the failure
    /// shown.
    Failed,
    /// Another backend has taken its place; nothing is done.
    Superseded,
}

pub enum AnnounceV {
    Wait,
    Ready(Seq<char>),
    Failed,
    Superseded,
}

impl View for Announce {
    type V = AnnounceV;

    open spec fn view(&self) -> AnnounceV {
        match self {
            Announce::Wait => AnnounceV::Wait,
            Announce::Ready(u) => AnnounceV::Ready(u@),
            Announce::Failed => AnnounceV::Failed,
            Announce::Superseded => AnnounceV::Superseded,
        }
    }
}

/// The end of the output, or of the wait.
pub open spec fn ended(current: bool) -> AnnounceV {
    if current {
        AnnounceV::Failed
    } else {
        AnnounceV::Superseded
    }
}

/// One line of output, `late` when the wait is over. `current` says whether this
/// backend is still the one that counts.
pub open spec fn heard(line: Seq<char>, late: bool, current: bool) -> AnnounceV {
    if late {
        ended(current)
    } else {
        match announced_port(line) {
            None => AnnounceV::Wait,
            Some(p) => if current {
                AnnounceV::Ready("http://127.0.0.1:"@ + dec(p))
            } else {
                AnnounceV::Superseded
            },
        }
    }
}

pub fn on_output_end(current: bool) -> (r: Announce)
    ensures
        r@ == ended(current),
{
    if current {
        Announce::Failed
    } else {
        Announce::Superseded
    }
}

pub fn on_output_line(line: &str, late: bool, current: bool) -> (r: Announce)
    ensures
        r@ == heard(line@, late, current),
{
    if late {
        return on_output_end(current);
    }
    match parse_ready_port(line) {
        None => Announce::Wait,
        Some(p) => if current {
            let mut u = "http://127.0.0.1:".to_string();
            u.append(&decimal(p as u128));
            Announce::Ready(u)
        } else {
            Announce::Superseded
        },
    }
}

/// The state of the backend after what its reader found.
pub open spec fn after_announce(b: BackendV, a: AnnounceV, token: Seq<char>) -> BackendV {
    match a {
        AnnounceV::Ready(url) => BackendV {
            base_url: url,
            token: crate::commands::token_of(token),
            ready: true,
        },
        AnnounceV::Failed => BackendV {
            base_url: crate::commands::default_backend_base(),
            token: None,
            ready: true,
        },
        _ => b,
    }
}

pub fn apply_announce(state: &mut BackendState, a: &Announce, token: &str)
    ensures
        final(state)@ == after_announce(old(state)@, a@, token@),
{
    match a {
        Announce::Ready(url) => state.mark_ready(url.clone(), token.to_string()),
        Announce::Failed => {
            let none = String::new();
            assert(none@ =~= Seq::<char>::empty());
            state.mark_ready("http://127.0.0.1:8080".to_string(), none);
        },
        _ => {},
    }
}

/// A reader whose backend was replaced changes nothing, whatever it reads.
pub proof fn law_superseded_reader_changes_nothing(
    b: BackendV,
    line: Seq<char>,
    late: bool,
    token: Seq<char>,
)
    ensures
        after_announce(b, heard(line, late, false), token) == b,
        after_announce(b, ended(false), token) == b,
{
}

/// Every wait for an announcement ends with the backend marked ready: at the
/// announced address, or at the default one.
pub proof fn law_boot_always_resolves(
    b: BackendV,
    line: Seq<char>,
    late: bool,
    token: Seq<char>,
)
    requires
        !(heard(line, late, true) is Wait),
    ensures
        after_announce(b, heard(line, late, true), token).ready,
        after_announce(b, ended(true), token).ready,
{
}

// ---------------------------------------------------------------------------
// The child process
// ---------------------------------------------------------------------------

/// What waiting for the child without blocking gave.
#[derive(Debug, PartialEq, Eq, Structural, Clone, Copy)]
pub enum Waited {
    /// It ended, with this code when it has one.
    Ended(Option<i32>),
    StillRuns,
    /// Waiting itself failed: the child counts as gone.
    WaitFailed,
}

/// What was seen of the child.
#[derive(Debug, PartialEq, Eq, Structural, Clone, Copy)]
pub enum ChildEvent {
    /// It ended on its own; the code is known when it has one.
    Exited(Option<i32>),
    /// It was taken away on purpose.
    Stopped,
    Running,
}

/// Whether there is a child to look after, and whether it is being torn down.
#[derive(Debug, PartialEq, Eq, Structural, Clone, Copy)]
pub struct GatewayState {
    pub child: bool,
    pub stopping: bool,
}

/// What waiting says of the child: one that is gone on purpose was stopped.
pub open spec fn polled(child: bool, waited: Waited) -> ChildEvent {
    if !child {
        ChildEvent::Stopped
    } else {
        match waited {
            Waited::Ended(code) => ChildEvent::Exited(code),
            Waited::StillRuns => ChildEvent::Running,
            Waited::WaitFailed => ChildEvent::Exited(None),
        }
    }
}

impl GatewayState {
    pub fn new() -> (r: GatewayState)
        ensures
            !r.child && !r.stopping,
    {
        GatewayState { child: false, stopping: false }
    }

    pub fn is_stopping(&self) -> (r: bool)
        ensures
            r == self.stopping,
    {
        self.stopping
    }

    /// Takes charge of a child.
    pub fn adopt(&mut self)
        ensures
            *final(self) == (GatewayState { child: true, ..*old(self) }),
    {
        self.child = true;
    }

    /// Takes in what waiting gave. A child that is gone leaves its place empty,
    /// so that it is never killed again.
    pub fn poll_gateway_child(&mut self, waited: Waited) -> (r: ChildEvent)
        ensures
            r == polled(old(self).child, waited),
            final(self).stopping == old(self).stopping,
            final(self).child == (r == ChildEvent::Running),
    {
        if !self.child {
            return ChildEvent::Stopped;
        }
        match waited {
            Waited::Ended(code) => {
                self.child = false;
                ChildEvent::Exited(code)
            },
            Waited::StillRuns => ChildEvent::Running,
            Waited::WaitFailed => {
                self.child = false;
                ChildEvent::Exited(None)
            },
        }
    }

    /// Begins the teardown: the intent is recorded before the child is killed.
    /// Says whether there is a child to kill.
    pub fn stop_gateway(&mut self) -> (r: bool)
        ensures
            r == old(self).child,
            *final(self) == (GatewayState { child: false, stopping: true }),
    {
        self.stopping = true;
        let had = self.child;
        self.child = false;
        had
    }
}

// ---------------------------------------------------------------------------
// The supervisor
// ---------------------------------------------------------------------------

/// The exit code with which the backend asks to be started again.
pub const SERVICE_RESTART_EXIT_CODE: i32 = 75;

/// How often the child is looked at.
pub const CHILD_POLL_INTERVAL_MS: u64 = 300;

pub const RESPAWN_BACKOFF_INITIAL_MS: u64 = 1000;

pub const RESPAWN_BACKOFF_MAX_MS: u64 = 30000;

/// How long an instance has to stay up to be told apart from a restart storm.
pub const RESPAWN_STABLE_MS: u64 = 60000;

/// What the supervisor does after it looked.
#[derive(Debug, PartialEq, Eq, Structural, Clone, Copy)]
pub enum Watch {
    /// Look again later.
    Keep,
    /// The end was wanted: nothing is revived and nothing is reported.
    Leave,
    /// The child ended on its own.
    Gone(Option<i32>),
}

/// `stopping` is whether the teardown had begun when the event was taken.
pub open spec fn watched(event: ChildEvent, stopping: bool) -> Watch {
    if stopping {
        Watch::Leave
    } else {
        match event {
            ChildEvent::Exited(code) => Watch::Gone(code),
            ChildEvent::Stopped => Watch::Leave,
            ChildEvent::Running => Watch::Keep,
        }
    }
}

pub fn watch(event: ChildEvent, stopping: bool) -> (r: Watch)
    ensures
        r == watched(event, stopping),
{
    if stopping {
        return Watch::Leave;
    }
    match event {
        ChildEvent::Exited(code) => Watch::Gone(code),
        ChildEvent::Stopped => Watch::Leave,
        ChildEvent::Running => Watch::Keep,
    }
}

/// What is done about an exit.
pub enum AfterExit {
    /// Start it again after this many milliseconds.
    RespawnAfter(u64),
    /// Tell the renderer, and stop supervising.
    Report(Json),
}

pub enum AfterExitV {
    RespawnAfter(u64),
    Report(JsonV),
}

impl View for AfterExit {
    type V = AfterExitV;

    open spec fn view(&self) -> AfterExitV {
        match self {
            AfterExit::RespawnAfter(n) => AfterExitV::RespawnAfter(*n),
            AfterExit::Report(j) => AfterExitV::Report(j@),
        }
    }
}

/// The wait before the next restart.
pub struct Supervisor {
    pub backoff_ms: u64,
}

pub open spec fn sound_backoff(ms: u64) -> bool {
    1000 <= ms <= 30000
}

/// The wait of an exit: an instance that was stable starts the ladder anew.
pub open spec fn current_backoff(backoff_ms: u64, up_ms: u64) -> u64 {
    if up_ms >= 60000 {
        1000
    } else {
        backoff_ms
    }
}

pub open spec fn doubled(ms: u64) -> u64 {
    if 2 * ms <= 30000 {
        (2 * ms) as u64
    } else {
        30000
    }
}

pub open spec fn exit_report(code: Option<i32>) -> JsonV {
    JsonV::Obj(
        put(
            put(
                no_fields(),
                "code"@,
                match code {
                    Some(c) => JsonV::Int(c as i64),
                    None => JsonV::Null,
                },
            ),
            "signal"@,
            JsonV::Null,
        ),
    )
}

/// Only the restart code restarts; anything else is reported.
pub open spec fn exit_action(backoff_ms: u64, code: Option<i32>, up_ms: u64) -> AfterExitV {
    if code == Some(75i32) {
        AfterExitV::RespawnAfter(current_backoff(backoff_ms, up_ms))
    } else {
        AfterExitV::Report(exit_report(code))
    }
}

pub open spec fn next_backoff(backoff_ms: u64, code: Option<i32>, up_ms: u64) -> u64 {
    let ms = current_backoff(backoff_ms, up_ms);
    if code == Some(75i32) {
        doubled(ms)
    } else {
        ms
    }
}

fn report_exit(code: Option<i32>) -> (r: Json)
    ensures
        r@ == exit_report(code),
{
    broadcast use crate::json::group_json_views;

    let mut o: Vec<(String, Json)> = Vec::new();
    assert(fields(o@) =~= no_fields());
    let value = match code {
        Some(c) => Json::Int(c as i64),
        None => Json::Null,
    };
    set_field(&mut o, "code", value);
    set_field(&mut o, "signal", Json::Null);
    Json::Obj(o)
}

impl Supervisor {
    pub fn new() -> (r: Supervisor)
        ensures
            r.backoff_ms == 1000,
            sound_backoff(r.backoff_ms),
    {
        Supervisor { backoff_ms: RESPAWN_BACKOFF_INITIAL_MS }
    }

    /// Takes in an exit of an instance that was up for `up_ms`.
    pub fn exited(&mut self, code: Option<i32>, up_ms: u64) -> (r: AfterExit)
        requires
            sound_backoff(old(self).backoff_ms),
        ensures
            r@ == exit_action(old(self).backoff_ms, code, up_ms),
            final(self).backoff_ms == next_backoff(old(self).backoff_ms, code, up_ms),
            sound_backoff(final(self).backoff_ms),
    {
        if up_ms >= RESPAWN_STABLE_MS {
            self.backoff_ms = RESPAWN_BACKOFF_INITIAL_MS;
        }
        if let Some(c) = code {
            if c == SERVICE_RESTART_EXIT_CODE {
                let wait: u64 = self.backoff_ms;
                self.backoff_ms = if wait * 2 <= RESPAWN_BACKOFF_MAX_MS {
                    wait * 2
                } else {
                    RESPAWN_BACKOFF_MAX_MS
                };
                return AfterExit::RespawnAfter(wait);
            }
        }
        AfterExit::Report(report_exit(code))
    }
}

/// Whether a restart goes ahead after the wait: not when the application is on
/// its way out.
pub open spec fn goes_ahead(stopping: bool, window_open: bool) -> bool {
    !stopping && window_open
}

pub fn respawn_goes_ahead(stopping: bool, window_open: bool) -> (r: bool)
    ensures
        r == goes_ahead(stopping, window_open),
{
    !stopping && window_open
}

/// The wait before the `n`th quick restart in a row.
pub open spec fn ladder(n: nat) -> u64
    decreases n,
{
    if n == 0 {
        1000
    } else {
        doubled(ladder((n - 1) as nat))
    }
}

/// The waits start at one second, double with each quick restart, and never pass
/// thirty seconds.
pub proof fn law_restarts_back_off(n: nat)
    ensures
        sound_backoff(ladder(n)),
        ladder(n) <= ladder(n + 1),
        ladder(n) < 15000 ==> ladder(n + 1) == 2 * ladder(n),
        forall|up: u64|
            up < 60000 ==> exit_action(ladder(n), Some(75i32), up) == AfterExitV::RespawnAfter(
                ladder(n),
            ) && #[trigger] next_backoff(ladder(n), Some(75i32), up) == ladder(n + 1),
    decreases n,
{
    if n > 0 {
        law_restarts_back_off((n - 1) as nat);
    }
    assert(ladder(n + 1) == doubled(ladder(n)));
}

/// From the sixth quick restart on the wait is thirty seconds.
pub proof fn law_back_off_reaches_its_cap(n: nat)
    requires
        n >= 5,
    ensures
        ladder(n) == 30000,
    decreases n,
{
    if n == 5 {
        reveal_with_fuel(ladder, 6);
    } else {
        law_back_off_reaches_its_cap((n - 1) as nat);
    }
}

/// An instance that stayed up for a minute starts the ladder anew.
pub proof fn law_stability_resets_the_wait(backoff_ms: u64, up_ms: u64)
    requires
        up_ms >= 60000,
    ensures
        exit_action(backoff_ms, Some(75i32), up_ms) == AfterExitV::RespawnAfter(1000),
{
}

/// After the teardown has begun, whatever happens to the child is neither
/// revived nor reported.
pub proof fn law_a_wanted_stop_is_final(event: ChildEvent)
    ensures
        watched(event, true) == Watch::Leave,
{
}

} // verus!
