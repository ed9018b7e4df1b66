//! The protocol with the process that owns the terminal sessions: requests go
//! out as objects, one per line, and its events come back in the same way.

use crate::json::{
    field, fields, no_fields, opt_str, put, set_field, str_field, str_field_or_empty, Json, JsonV,
};
use crate::text::{
    dec, decimal, hex_nat, hex_number, list_has, opt_text, or_empty, same, split, split_of, texts,
    trim, trimmed,
};
use vstd::prelude::*;

verus! {

// ---------------------------------------------------------------------------
// Requests
// ---------------------------------------------------------------------------

/// What a session is started with.
pub struct StartPayload {
    pub cwd: Option<String>,
    pub cols: Option<u16>,
    pub rows: Option<u16>,
}

/// A session that was started.
pub struct StartedInfo {
    pub cwd: Option<String>,
    pub id: String,
    pub shell: String,
}

#[verifier::ext_equal]
pub struct StartedV {
    pub cwd: Option<Seq<char>>,
    pub id: Seq<char>,
    pub shell: Seq<char>,
}

impl View for StartedInfo {
    type V = StartedV;

    open spec fn view(&self) -> StartedV {
        StartedV { cwd: opt_text(self.cwd), id: self.id@, shell: self.shell@ }
    }
}

/// A request to the process.
pub enum ActorMsg {
    Start { id: String, payload: StartPayload },
    Write { id: String, data: String },
    Resize { id: String, cols: u16, rows: u16 },
    Cwd { id: String },
    Dispose { id: String },
}

pub open spec fn opt_number(o: Option<u16>) -> JsonV {
    match o {
        Some(n) => JsonV::Int(n as i64),
        None => JsonV::Null,
    }
}

pub open spec fn payload_json(p: StartPayload) -> JsonV {
    let o = put(no_fields(), "cwd"@, opt_str(opt_text(p.cwd)));
    let o = put(o, "cols"@, opt_number(p.cols));
    JsonV::Obj(put(o, "rows"@, opt_number(p.rows)))
}

/// The object that a request is sent as.
pub open spec fn request_json(m: ActorMsg) -> JsonV {
    match m {
        ActorMsg::Start { id, payload } => {
            let o = put(no_fields(), "type"@, JsonV::Str("start"@));
            let o = put(o, "id"@, JsonV::Str(id@));
            JsonV::Obj(put(o, "payload"@, payload_json(payload)))
        },
        ActorMsg::Write { id, data } => {
            let o = put(no_fields(), "type"@, JsonV::Str("write"@));
            let o = put(o, "id"@, JsonV::Str(id@));
            JsonV::Obj(put(o, "data"@, JsonV::Str(data@)))
        },
        ActorMsg::Resize { id, cols, rows } => {
            let o = put(no_fields(), "type"@, JsonV::Str("resize"@));
            let o = put(o, "id"@, JsonV::Str(id@));
            let o = put(o, "cols"@, JsonV::Int(cols as i64));
            JsonV::Obj(put(o, "rows"@, JsonV::Int(rows as i64)))
        },
        ActorMsg::Cwd { id } => {
            let o = put(no_fields(), "type"@, JsonV::Str("cwd"@));
            JsonV::Obj(put(o, "id"@, JsonV::Str(id@)))
        },
        ActorMsg::Dispose { id } => {
            let o = put(no_fields(), "type"@, JsonV::Str("dispose"@));
            JsonV::Obj(put(o, "id"@, JsonV::Str(id@)))
        },
    }
}

fn number_json(o: Option<u16>) -> (r: Json)
    ensures
        r@ == opt_number(o),
{
    broadcast use crate::json::group_json_views;

    match o {
        Some(n) => Json::Int(n as i64),
        None => Json::Null,
    }
}

fn write_payload(p: &StartPayload) -> (r: Json)
    ensures
        r@ == payload_json(*p),
{
    broadcast use crate::json::group_json_views;

    let mut o: Vec<(String, Json)> = Vec::new();
    assert(fields(o@) =~= no_fields());
    set_field(&mut o, "cwd", Json::from_opt(&p.cwd));
    set_field(&mut o, "cols", number_json(p.cols));
    set_field(&mut o, "rows", number_json(p.rows));
    Json::Obj(o)
}

fn request_start(kind: &str, id: &str) -> (r: Vec<(String, Json)>)
    ensures
        fields(r@) == put(
            put(no_fields(), "type"@, JsonV::Str(kind@)),
            "id"@,
            JsonV::Str(id@),
        ),
{
    let mut o: Vec<(String, Json)> = Vec::new();
    assert(fields(o@) =~= no_fields());
    set_field(&mut o, "type", Json::text(kind));
    set_field(&mut o, "id", Json::text(id));
    o
}

pub fn request_object(m: &ActorMsg) -> (r: Json)
    ensures
        r@ == request_json(*m),
{
    broadcast use crate::json::group_json_views;

    match m {
        ActorMsg::Start { id, payload } => {
            let mut o = request_start("start", id);
            set_field(&mut o, "payload", write_payload(payload));
            Json::Obj(o)
        },
        ActorMsg::Write { id, data } => {
            let mut o = request_start("write", id);
            set_field(&mut o, "data", Json::text(data));
            Json::Obj(o)
        },
        ActorMsg::Resize { id, cols, rows } => {
            let mut o = request_start("resize", id);
            set_field(&mut o, "cols", Json::Int(*cols as i64));
            set_field(&mut o, "rows", Json::Int(*rows as i64));
            Json::Obj(o)
        },
        ActorMsg::Cwd { id } => Json::Obj(request_start("cwd", id)),
        ActorMsg::Dispose { id } => Json::Obj(request_start("dispose", id)),
    }
}

// ---------------------------------------------------------------------------
// Pending requests
// ---------------------------------------------------------------------------

/// The sessions for which an answer is awaited.
pub struct TerminalState {
    pub starts: Vec<String>,
    pub cwds: Vec<String>,
}

#[verifier::ext_equal]
pub struct TerminalV {
    pub starts: Set<Seq<char>>,
    pub cwds: Set<Seq<char>>,
}

impl View for TerminalState {
    type V = TerminalV;

    open spec fn view(&self) -> TerminalV {
        TerminalV { starts: texts(self.starts@).to_set(), cwds: texts(self.cwds@).to_set() }
    }
}

fn insert_id(ids: &mut Vec<String>, id: &str)
    ensures
        texts(final(ids)@).to_set() == texts(old(ids)@).to_set().insert(id@),
{
    let ghost before = texts(ids@);
    if list_has(ids, id) {
        assert(before.to_set() =~= before.to_set().insert(id@));
        return;
    }
    ids.push(id.to_string());
    proof {
        let after = texts(ids@);
        assert(after =~= before.push(id@));
        assert(after[before.len() as int] == id@);
        assert forall|x: Seq<char>| before.contains(x) implies after.contains(x) by {
            let k = choose|k: int| 0 <= k < before.len() && before[k] == x;
            assert(after[k] == x);
        }
        assert(after.to_set() =~= before.to_set().insert(id@));
    }
}

/// Takes an id out; says whether it was there.
fn remove_id(ids: &mut Vec<String>, id: &str) -> (r: bool)
    ensures
        r == texts(old(ids)@).to_set().contains(id@),
        texts(final(ids)@).to_set() == texts(old(ids)@).to_set().remove(id@),
{
    let ghost all = texts(ids@);
    let found = list_has(ids, id);
    let mut kept: Vec<String> = Vec::new();
    let mut i: usize = 0;
    while i < ids.len()
        invariant
            i <= ids@.len(),
            texts(ids@) == all,
            forall|x: Seq<char>| #[trigger]
                texts(kept@).contains(x) ==> x != id@ && all.contains(x),
            forall|j: int|
                0 <= j < i && #[trigger] all[j] != id@ ==> texts(kept@).contains(all[j]),
        decreases ids@.len() - i,
    {
        assert(all[i as int] == ids@[i as int]@);
        if !same(&ids[i], id) {
            let ghost before = texts(kept@);
            let s = ids[i].clone();
            kept.push(s);
            proof {
                let after = texts(kept@);
                assert(after =~= before.push(s@));
                assert(after[before.len() as int] == s@);
                assert forall|x: Seq<char>| #[trigger] after.contains(x) implies x != id@
                    && all.contains(x) by {
                    let k = choose|k: int| 0 <= k < after.len() && after[k] == x;
                    if k < before.len() {
                        assert(before[k] == x);
                        assert(before.contains(x));
                    }
                }
                assert forall|j: int|
                    0 <= j < i + 1 && #[trigger] all[j] != id@ implies after.contains(all[j]) by {
                    if j < i {
                        assert(before.contains(all[j]));
                        let k = choose|k: int| 0 <= k < before.len() && before[k] == all[j];
                        assert(after[k] == all[j]);
                    }
                }
            }
        }
        i += 1;
    }
    proof {
        assert forall|x: Seq<char>|
            texts(kept@).to_set().contains(x) <==> all.to_set().remove(id@).contains(x) by {
            if all.contains(x) && x != id@ {
                let j = choose|j: int| 0 <= j < all.len() && all[j] == x;
                assert(texts(kept@).contains(all[j]));
            }
        }
        assert(texts(kept@).to_set() =~= all.to_set().remove(id@));
    }
    *ids = kept;
    found
}

// ---------------------------------------------------------------------------
// Events
// ---------------------------------------------------------------------------

/// What an event of the process comes to.
pub enum TerminalEvent {
    /// Nothing waits for it, or it is of no known kind.
    Ignored,
    /// The answer to a start.
    Started { id: String, answer: Result<StartedInfo, String> },
    /// The answer to a question for the directory of a session.
    Cwd { id: String, cwd: Option<String> },
    /// Something to pass on to the renderer.
    Emit { event: String, payload: Json },
}

pub enum TerminalEventV {
    Ignored,
    Started { id: Seq<char>, answer: Result<StartedV, Seq<char>> },
    Cwd { id: Seq<char>, cwd: Option<Seq<char>> },
    Emit { event: Seq<char>, payload: JsonV },
}

pub open spec fn started_answer(r: Result<StartedInfo, String>) -> Result<StartedV, Seq<char>> {
    match r {
        Ok(i) => Ok(i@),
        Err(e) => Err(e@),
    }
}

impl View for TerminalEvent {
    type V = TerminalEventV;

    open spec fn view(&self) -> TerminalEventV {
        match self {
            TerminalEvent::Ignored => TerminalEventV::Ignored,
            TerminalEvent::Started { id, answer } => TerminalEventV::Started {
                id: id@,
                answer: started_answer(*answer),
            },
            TerminalEvent::Cwd { id, cwd } => TerminalEventV::Cwd { id: id@, cwd: opt_text(*cwd) },
            TerminalEvent::Emit { event, payload } => TerminalEventV::Emit {
                event: event@,
                payload: payload@,
            },
        }
    }
}

pub open spec fn exit_payload(v: JsonV) -> JsonV {
    let code = match field(v, "code"@) {
        Some(JsonV::Int(n)) => n,
        _ => 0i64,
    };
    JsonV::Obj(
        put(
            put(no_fields(), "code"@, JsonV::Int(code)),
            "signal"@,
            opt_str(str_field(v, "signal"@)),
        ),
    )
}

/// The event, and what is still pending after it. An answer is passed on only
/// where one is awaited.
pub open spec fn event_of(s: TerminalV, v: JsonV) -> (TerminalEventV, TerminalV) {
    let kind = str_field_or_empty(v, "type"@);
    let id = str_field_or_empty(v, "id"@);
    if kind == "started"@ {
        if s.starts.contains(id) {
            (
                TerminalEventV::Started {
                    id,
                    answer: Ok(
                        StartedV {
                            cwd: str_field(v, "cwd"@),
                            id,
                            shell: str_field_or_empty(v, "shell"@),
                        },
                    ),
                },
                TerminalV { starts: s.starts.remove(id), ..s },
            )
        } else {
            (TerminalEventV::Ignored, s)
        }
    } else if kind == "error"@ {
        if s.starts.contains(id) {
            (
                TerminalEventV::Started {
                    id,
                    answer: Err(
                        match str_field(v, "message"@) {
                            Some(m) => m,
                            None => "sidecar error"@,
                        },
                    ),
                },
                TerminalV { starts: s.starts.remove(id), ..s },
            )
        } else {
            (TerminalEventV::Ignored, s)
        }
    } else if kind == "cwd"@ {
        if s.cwds.contains(id) {
            (
                TerminalEventV::Cwd { id, cwd: str_field(v, "cwd"@) },
                TerminalV { cwds: s.cwds.remove(id), ..s },
            )
        } else {
            (TerminalEventV::Ignored, s)
        }
    } else if kind == "data"@ {
        (
            TerminalEventV::Emit {
                event: "hermes:terminal:"@ + id + ":data"@,
                payload: JsonV::Str(str_field_or_empty(v, "data"@)),
            },
            s,
        )
    } else if kind == "exit"@ {
        (
            TerminalEventV::Emit {
                event: "hermes:terminal:"@ + id + ":exit"@,
                payload: exit_payload(v),
            },
            s,
        )
    } else {
        (TerminalEventV::Ignored, s)
    }
}

/// What is pending once a request was sent.
pub open spec fn sent_of(s: TerminalV, m: ActorMsg) -> TerminalV {
    match m {
        ActorMsg::Start { id, .. } => TerminalV { starts: s.starts.insert(id@), ..s },
        ActorMsg::Cwd { id } => TerminalV { cwds: s.cwds.insert(id@), ..s },
        _ => s,
    }
}

fn event_name(id: &str, what: &str) -> (r: String)
    ensures
        r@ == "hermes:terminal:"@ + id@ + what@,
{
    let mut e = "hermes:terminal:".to_string();
    e.append(id);
    e.append(what);
    e
}

fn write_exit(v: &Json) -> (r: Json)
    ensures
        r@ == exit_payload(v@),
{
    broadcast use crate::json::group_json_views;

    let code: i64 = match v.get("code") {
        Some(Json::Int(n)) => *n,
        _ => 0,
    };
    let mut o: Vec<(String, Json)> = Vec::new();
    assert(fields(o@) =~= no_fields());
    set_field(&mut o, "code", Json::Int(code));
    set_field(&mut o, "signal", Json::from_opt(&v.get_str("signal")));
    Json::Obj(o)
}

impl TerminalState {
    pub fn new() -> (r: TerminalState)
        ensures
            r@ == (TerminalV { starts: Set::empty(), cwds: Set::empty() }),
    {
        let starts: Vec<String> = Vec::new();
        let cwds: Vec<String> = Vec::new();
        assert(texts(starts@).to_set() =~= Set::<Seq<char>>::empty());
        assert(texts(cwds@).to_set() =~= Set::<Seq<char>>::empty());
        TerminalState { starts, cwds }
    }

    /// Records a request, before it is sent.
    pub fn sent(&mut self, m: &ActorMsg)
        ensures
            final(self)@ == sent_of(old(self)@, *m),
    {
        match m {
            ActorMsg::Start { id, .. } => insert_id(&mut self.starts, id),
            ActorMsg::Cwd { id } => insert_id(&mut self.cwds, id),
            _ => {},
        }
    }

    /// Takes in an event.
    pub fn received(&mut self, v: &Json) -> (r: TerminalEvent)
        ensures
            (r@, final(self)@) == event_of(old(self)@, v@),
    {
        broadcast use crate::json::group_json_views;

        let kind = v.get_str_or_empty("type");
        let id = v.get_str_or_empty("id");
        if same(&kind, "started") {
            if !remove_id(&mut self.starts, &id) {
                assert(self@ =~= old(self)@);
                return TerminalEvent::Ignored;
            }
            let info = StartedInfo {
                cwd: v.get_str("cwd"),
                id: id.clone(),
                shell: v.get_str_or_empty("shell"),
            };
            return TerminalEvent::Started { id, answer: Ok(info) };
        }
        if same(&kind, "error") {
            if !remove_id(&mut self.starts, &id) {
                assert(self@ =~= old(self)@);
                return TerminalEvent::Ignored;
            }
            let message = match v.get_str("message") {
                Some(m) => m,
                None => "sidecar error".to_string(),
            };
            return TerminalEvent::Started { id, answer: Err(message) };
        }
        if same(&kind, "cwd") {
            if !remove_id(&mut self.cwds, &id) {
                assert(self@ =~= old(self)@);
                return TerminalEvent::Ignored;
            }
            return TerminalEvent::Cwd { id, cwd: v.get_str("cwd") };
        }
        if same(&kind, "data") {
            return TerminalEvent::Emit {
                event: event_name(&id, ":data"),
                payload: Json::Str(v.get_str_or_empty("data")),
            };
        }
        if same(&kind, "exit") {
            return TerminalEvent::Emit {
                event: event_name(&id, ":exit"),
                payload: write_exit(v),
            };
        }
        TerminalEvent::Ignored
    }
}

/// A start is answered at most once: after its answer, the same event is
/// ignored.
pub proof fn law_a_start_is_answered_once(s: TerminalV, v: JsonV)
    requires
        event_of(s, v).0 is Started,
    ensures
        s.starts.contains(str_field_or_empty(v, "id"@)),
        event_of(event_of(s, v).1, v).0 is Ignored,
        event_of(s, v).1.cwds == s.cwds,
{
}

/// An answer concerns its own session only: what other sessions wait for is
/// still awaited.
pub proof fn law_answers_do_not_mix(s: TerminalV, v: JsonV, other: Seq<char>)
    requires
        other != str_field_or_empty(v, "id"@),
    ensures
        event_of(s, v).1.starts.contains(other) == s.starts.contains(other),
        event_of(s, v).1.cwds.contains(other) == s.cwds.contains(other),
{
}

/// A request that was sent gets the answer that names it.
pub proof fn law_a_sent_start_can_be_answered(s: TerminalV, m: ActorMsg, v: JsonV)
    requires
        m is Start,
        str_field_or_empty(v, "id"@) == m->Start_id@,
        str_field_or_empty(v, "type"@) == "started"@ || str_field_or_empty(v, "type"@) == "error"@,
    ensures
        event_of(sent_of(s, m), v).0 is Started,
{
}

// ---------------------------------------------------------------------------
// Ids, and finding the runtime
// ---------------------------------------------------------------------------

/// The id of the `n`th session, started at `ms`.
pub open spec fn id_of(ms: nat, n: nat) -> Seq<char> {
    "term-"@ + hex_nat(ms) + "-"@ + dec(n)
}

pub fn gen_id(ms: u128, n: u64) -> (r: String)
    ensures
        r@ == id_of(ms as nat, n as nat),
{
    let mut out = "term-".to_string();
    out.append(&hex_number(ms));
    out.append("-");
    out.append(&decimal(n as u128));
    out
}

proof fn lemma_dec_has_no_dash(n: nat)
    ensures
        forall|i: int| 0 <= i < dec(n).len() ==> #[trigger] dec(n)[i] != '-',
        dec(n).len() > 0,
    decreases n,
{
    if n >= 10 {
        lemma_dec_has_no_dash(n / 10);
    }
}

/// No two sessions share an id, whenever they are started.
pub proof fn law_session_ids_differ(ms1: nat, n1: nat, ms2: nat, n2: nat)
    requires
        n1 != n2,
    ensures
        id_of(ms1, n1) != id_of(ms2, n2),
{
    lemma_dec_has_no_dash(n1);
    lemma_dec_has_no_dash(n2);
    reveal_strlit("-");
    let a = id_of(ms1, n1);
    let b = id_of(ms2, n2);
    let d1 = dec(n1);
    let d2 = dec(n2);
    if a == b {
        let l = a.len() as int;
        assert(a[l - d1.len() - 1] == '-');
        assert(b[l - d2.len() - 1] == '-');
        if d1.len() < d2.len() {
            assert(b[l - d1.len() - 1] == d2[d2.len() - d1.len() - 1]);
        } else if d2.len() < d1.len() {
            assert(a[l - d2.len() - 1] == d1[d1.len() - d2.len() - 1]);
        }
        assert(d1 =~= a.skip(l - d1.len()));
        assert(d2 =~= b.skip(l - d2.len()));
        crate::text::lemma_dec_injective(n1, n2);
    }
}

/// The directories of a search path, without empty ones.
pub open spec fn search_dirs(path: Seq<char>) -> Seq<Seq<char>> {
    crate::text::pick(
        split_of(path, ';'),
        |d: Seq<char>|
            if d.len() == 0 {
                None
            } else {
                Some(d)
            },
    )
}

pub fn find_on_path(path: &str) -> (r: Vec<String>)
    ensures
        texts(r@) == search_dirs(path@),
{
    let parts = split(path, ';');
    let ghost all = split_of(path@, ';');
    let ghost f = |d: Seq<char>|
        if d.len() == 0 {
            None
        } else {
            Some(d)
        };
    let mut out: Vec<String> = Vec::new();
    assert(texts(out@) =~= crate::text::pick(all.take(0), f));
    let mut i: usize = 0;
    while i < parts.len()
        invariant
            i <= parts@.len(),
            texts(parts@) == all,
            f == (|d: Seq<char>|
                if d.len() == 0 {
                    None
                } else {
                    Some(d)
                }),
            texts(out@) == crate::text::pick(all.take(i as int), f),
        decreases parts@.len() - i,
    {
        assert(all.take(i + 1).drop_last() =~= all.take(i as int));
        assert(all.take(i + 1).last() == parts@[i as int]@) by {
            assert(texts(parts@)[i as int] == parts@[i as int]@);
        }
        if !parts[i].as_str().is_empty() {
            let ghost before = texts(out@);
            let s = parts[i].clone();
            out.push(s);
            assert(texts(out@) =~= before.push(s@));
        }
        i += 1;
    }
    assert(all.take(i as int) =~= all);
    out
}

/// The runtime that the environment names: the first variable that is not blank.
pub open spec fn named_runtime(hermes_node: Option<Seq<char>>, node: Option<Seq<char>>) -> Option<
    Seq<char>,
> {
    if trimmed(or_empty(hermes_node)).len() > 0 {
        Some(trimmed(or_empty(hermes_node)))
    } else if trimmed(or_empty(node)).len() > 0 {
        Some(trimmed(or_empty(node)))
    } else {
        None
    }
}

fn trimmed_or_empty(o: &Option<String>) -> (r: String)
    ensures
        r@ == trimmed(or_empty(opt_text(*o))),
{
    match o {
        Some(s) => trim(s),
        None => {
            let none = String::new();
            assert(none@ =~= Seq::<char>::empty());
            trim(&none)
        },
    }
}

/// The runtime: the one that the environment names, else the one found on the
/// search path.
pub open spec fn runtime_of(
    hermes_node: Option<Seq<char>>,
    node: Option<Seq<char>>,
    found: Option<Seq<char>>,
) -> Result<Seq<char>, Seq<char>> {
    match named_runtime(hermes_node, node) {
        Some(n) => Ok(n),
        None => match found {
            Some(n) => Ok(n),
            None => Err("Could not locate a node executable to run the terminal sidecar"@),
        },
    }
}

pub fn resolve_node(
    hermes_node: &Option<String>,
    node: &Option<String>,
    found: &Option<String>,
) -> (r: Result<String, String>)
    ensures
        crate::text::text_result(r) == runtime_of(
            opt_text(*hermes_node),
            opt_text(*node),
            opt_text(*found),
        ),
{
    let a = trimmed_or_empty(hermes_node);
    if !a.as_str().is_empty() {
        return Ok(a);
    }
    let b = trimmed_or_empty(node);
    if !b.as_str().is_empty() {
        return Ok(b);
    }
    match found {
        Some(n) => Ok(n.clone()),
        None => Err("Could not locate a node executable to run the terminal sidecar".to_string()),
    }
}

/// What a start answers with: the session under its own id.
pub open spec fn start_answer(answer: Result<StartedV, Seq<char>>, id: Seq<char>) -> Result<
    StartedV,
    Seq<char>,
> {
    match answer {
        Ok(i) => Ok(StartedV { id, ..i }),
        Err(e) => Err(e),
    }
}

pub fn terminal_start(answer: Result<StartedInfo, String>, id: &str) -> (r: Result<
    StartedInfo,
    String,
>)
    ensures
        started_answer(r) == start_answer(started_answer(answer), id@),
{
    match answer {
        Ok(i) => Ok(StartedInfo { cwd: i.cwd, id: id.to_string(), shell: i.shell }),
        Err(e) => Err(e),
    }
}

} // verus!
