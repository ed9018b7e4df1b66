//! What the terminals, the served files and the windows owe whoever uses them.

use crate::asset_server::{
    base_url_of, chosen_file, path_part, request_of, safe_segments, sanitized, served_type, Method,
};
use crate::escape::{escape_of, law_decode_undoes_encode, percent_decoded, Keep};
use crate::json::{field, lemma_lookup_put, lookup, no_fields, opt_str, put, str_field, JsonV};
use crate::outside::{letter_or_number, mime_of};
use crate::paths::{extension_of, names_drive};
use crate::terminal::{
    event_of, id_of, opt_number, payload_json, request_json, runtime_of, search_dirs, sent_of,
    start_answer, ActorMsg, StartedV, TerminalEventV, TerminalV,
};
use crate::text::{
    dec, join_of, last_index_of, lemma_last_index_of, lemma_split_append, lemma_split_one, opt_text,
    split_of, trim_end_of, trimmed, Class,
};
use crate::text_laws::{law_picking_goes_piece_by_piece, law_pieces_part_at_a_separator};
use crate::windows::{dashed, fit_bytes, label_of, session_named, window_url};
use vstd::prelude::*;
use vstd::utf8::encode_utf8;

verus! {

// ---------------------------------------------------------------------------
// Terminals
// ---------------------------------------------------------------------------

/// Whether an event is of this type and session.
pub open spec fn is_event(v: JsonV, kind: Seq<char>, id: Seq<char>) -> bool {
    str_field(v, "type"@) == Some(kind) && str_field(v, "id"@) == Some(id)
}

proof fn lemma_event_kinds()
    ensures
        "started"@ != "error"@ && "started"@ != "cwd"@ && "started"@ != "data"@ && "started"@
            != "exit"@,
        "error"@ != "cwd"@ && "error"@ != "data"@ && "error"@ != "exit"@,
        "cwd"@ != "data"@ && "cwd"@ != "exit"@ && "data"@ != "exit"@,
{
    reveal_strlit("started");
    reveal_strlit("error");
    reveal_strlit("cwd");
    reveal_strlit("data");
    reveal_strlit("exit");
    assert("started"@[0] == 's' && "error"@[0] == 'e' && "cwd"@[0] == 'c' && "data"@[0] == 'd');
    assert("exit"@[0] == 'e' && "error"@[1] == 'r' && "exit"@[1] == 'x');
}

/// The output of a session is passed on to its own listener exactly as it came,
/// with no character added, dropped or changed, whatever else is awaited: what
/// two events carry, joined, is what their texts joined are.
pub proof fn law_output_arrives_as_it_came(
    s: TerminalV,
    id: Seq<char>,
    v: JsonV,
    a: Seq<char>,
    w: JsonV,
    b: Seq<char>,
)
    requires
        is_event(v, "data"@, id),
        str_field(v, "data"@) == Some(a),
        is_event(w, "data"@, id),
        str_field(w, "data"@) == Some(b),
    ensures
        event_of(s, v).0 == (TerminalEventV::Emit {
            event: "hermes:terminal:"@ + id + ":data"@,
            payload: JsonV::Str(a),
        }),
        event_of(s, v).1 == s,
        ({
            let first = event_of(s, v).0->Emit_payload->Str_0;
            let second = event_of(event_of(s, v).1, w).0->Emit_payload->Str_0;
            first + second == a + b
        }),
{
    lemma_event_kinds();
}

/// The end of a session is passed on to its own listener, with the code and the
/// signal that came.
pub proof fn law_an_end_arrives_with_its_code(
    s: TerminalV,
    id: Seq<char>,
    v: JsonV,
    code: i64,
    signal: Option<Seq<char>>,
)
    requires
        is_event(v, "exit"@, id),
        field(v, "code"@) == Some(JsonV::Int(code)),
        str_field(v, "signal"@) == signal,
    ensures
        event_of(s, v).1 == s,
        event_of(s, v).0 matches TerminalEventV::Emit { event, payload } && {
            &&& event == "hermes:terminal:"@ + id + ":exit"@
            &&& field(payload, "code"@) == Some(JsonV::Int(code))
            &&& field(payload, "signal"@) == Some(
                match signal {
                    Some(n) => JsonV::Str(n),
                    None => JsonV::Null,
                },
            )
        },
{
    lemma_event_kinds();
    reveal_strlit("code");
    reveal_strlit("signal");
    assert("code"@[0] == 'c' && "signal"@[0] == 's');
    let one = put(no_fields(), "code"@, JsonV::Int(code));
    lemma_lookup_put(no_fields(), "code"@, JsonV::Int(code), "code"@);
    lemma_lookup_put(one, "signal"@, opt_str(signal), "code"@);
    lemma_lookup_put(one, "signal"@, opt_str(signal), "signal"@);
}

/// A start that was sent is answered with the directory and the shell that came
/// for it, or with the complaint that came; and so is a question for the
/// directory.
pub proof fn law_a_request_is_answered_with_what_came(
    s: TerminalV,
    id: Seq<char>,
    v: JsonV,
    shell: Seq<char>,
    complaint: Seq<char>,
)
    ensures
        s.starts.contains(id) && is_event(v, "started"@, id) && str_field(v, "shell"@) == Some(
            shell,
        ) ==> event_of(s, v).0 == (TerminalEventV::Started {
            id,
            answer: Ok(StartedV { cwd: str_field(v, "cwd"@), id, shell }),
        }),
        s.starts.contains(id) && is_event(v, "error"@, id) && str_field(v, "message"@) == Some(
            complaint,
        ) ==> event_of(s, v).0 == (TerminalEventV::Started { id, answer: Err(complaint) }),
        s.cwds.contains(id) && is_event(v, "cwd"@, id) ==> event_of(s, v).0 == (
        TerminalEventV::Cwd { id, cwd: str_field(v, "cwd"@) }) && !event_of(s, v).1.cwds.contains(
            id,
        ) && event_of(s, v).1.starts == s.starts,
        !s.starts.contains(id) && (is_event(v, "started"@, id) || is_event(v, "error"@, id))
            ==> event_of(s, v) == (TerminalEventV::Ignored, s),
        !s.cwds.contains(id) && is_event(v, "cwd"@, id) ==> event_of(s, v) == (
            TerminalEventV::Ignored,
            s,
        ),
{
    lemma_event_kinds();
}

/// Only a start and a question for the directory wait for an answer, each for
/// its own session.
pub proof fn law_only_questions_wait_for_an_answer(s: TerminalV, m: ActorMsg, other: Seq<char>)
    ensures
        m is Start ==> sent_of(s, m).starts.contains(m->Start_id@) && sent_of(s, m).cwds == s.cwds,
        m is Cwd ==> sent_of(s, m).cwds.contains(m->Cwd_id@) && sent_of(s, m).starts == s.starts,
        m is Start && other != m->Start_id@ ==> sent_of(s, m).starts.contains(other)
            == s.starts.contains(other),
        m is Cwd && other != m->Cwd_id@ ==> sent_of(s, m).cwds.contains(other) == s.cwds.contains(
            other,
        ),
        m is Write || m is Resize || m is Dispose ==> sent_of(s, m) == s,
{
}

proof fn lemma_request_keys()
    ensures
        "type"@ != "id"@ && "type"@ != "data"@ && "type"@ != "cols"@ && "type"@ != "rows"@
            && "type"@ != "payload"@,
        "id"@ != "data"@ && "id"@ != "cols"@ && "id"@ != "rows"@ && "id"@ != "payload"@,
        "cols"@ != "rows"@ && "cwd"@ != "cols"@ && "cwd"@ != "rows"@,
{
    reveal_strlit("type");
    reveal_strlit("id");
    reveal_strlit("data");
    reveal_strlit("cols");
    reveal_strlit("rows");
    reveal_strlit("payload");
    reveal_strlit("cwd");
    assert("type"@[0] == 't' && "id"@[0] == 'i' && "data"@[0] == 'd' && "cols"@[0] == 'c');
    assert("rows"@[0] == 'r' && "payload"@[0] == 'p' && "cwd"@.len() == 3 && "cols"@.len() == 4);
    assert("rows"@.len() == 4);
}

proof fn lemma_request_head(kind: Seq<char>, id: Seq<char>, q: Seq<char>, x: JsonV)
    requires
        q != "type"@,
        q != "id"@,
    ensures
        ({
            let head = put(put(no_fields(), "type"@, JsonV::Str(kind)), "id"@, JsonV::Str(id));
            let o = put(head, q, x);
            &&& lookup(head, "type"@) == Some(JsonV::Str(kind))
            &&& lookup(head, "id"@) == Some(JsonV::Str(id))
            &&& lookup(o, "type"@) == Some(JsonV::Str(kind))
            &&& lookup(o, "id"@) == Some(JsonV::Str(id))
            &&& lookup(o, q) == Some(x)
        }),
{
    lemma_request_keys();
    let a = put(no_fields(), "type"@, JsonV::Str(kind));
    let head = put(a, "id"@, JsonV::Str(id));
    lemma_lookup_put(no_fields(), "type"@, JsonV::Str(kind), "type"@);
    lemma_lookup_put(a, "id"@, JsonV::Str(id), "type"@);
    lemma_lookup_put(a, "id"@, JsonV::Str(id), "id"@);
    lemma_lookup_put(head, q, x, "type"@);
    lemma_lookup_put(head, q, x, "id"@);
    lemma_lookup_put(head, q, x, q);
}

/// A request carries what it was made with: its kind, its session, and the
/// typed text as it was typed, the size as it is, the directory as it was given.
pub proof fn law_requests_carry_what_they_are_given(m: ActorMsg)
    ensures
        ({
            let j = request_json(m);
            match m {
                ActorMsg::Start { id, payload } => {
                    &&& is_event(j, "start"@, id@)
                    &&& field(j, "payload"@) matches Some(p) && {
                        &&& field(p, "cwd"@) == Some(
                            match payload.cwd {
                                Some(d) => JsonV::Str(d@),
                                None => JsonV::Null,
                            },
                        )
                        &&& field(p, "cols"@) == Some(
                            match payload.cols {
                                Some(n) => JsonV::Int(n as i64),
                                None => JsonV::Null,
                            },
                        )
                        &&& field(p, "rows"@) == Some(
                            match payload.rows {
                                Some(n) => JsonV::Int(n as i64),
                                None => JsonV::Null,
                            },
                        )
                    }
                },
                ActorMsg::Write { id, data } => is_event(j, "write"@, id@) && field(j, "data"@)
                    == Some(JsonV::Str(data@)),
                ActorMsg::Resize { id, cols, rows } => is_event(j, "resize"@, id@) && field(
                    j,
                    "cols"@,
                ) == Some(JsonV::Int(cols as i64)) && field(j, "rows"@) == Some(
                    JsonV::Int(rows as i64),
                ),
                ActorMsg::Cwd { id } => is_event(j, "cwd"@, id@),
                ActorMsg::Dispose { id } => is_event(j, "dispose"@, id@),
            }
        }),
{
    lemma_request_keys();
    match m {
        ActorMsg::Start { id, payload } => {
            lemma_request_head("start"@, id@, "payload"@, payload_json(payload));
            let a = put(no_fields(), "cwd"@, opt_str(opt_text(payload.cwd)));
            let b = put(a, "cols"@, opt_number(payload.cols));
            lemma_lookup_put(no_fields(), "cwd"@, opt_str(opt_text(payload.cwd)), "cwd"@);
            lemma_lookup_put(a, "cols"@, opt_number(payload.cols), "cwd"@);
            lemma_lookup_put(a, "cols"@, opt_number(payload.cols), "cols"@);
            lemma_lookup_put(b, "rows"@, opt_number(payload.rows), "cwd"@);
            lemma_lookup_put(b, "rows"@, opt_number(payload.rows), "cols"@);
            lemma_lookup_put(b, "rows"@, opt_number(payload.rows), "rows"@);
        },
        ActorMsg::Write { id, data } => {
            lemma_request_head("write"@, id@, "data"@, JsonV::Str(data@));
        },
        ActorMsg::Resize { id, cols, rows } => {
            lemma_request_head("resize"@, id@, "cols"@, JsonV::Int(cols as i64));
            let head = put(
                put(no_fields(), "type"@, JsonV::Str("resize"@)),
                "id"@,
                JsonV::Str(id@),
            );
            let o = put(head, "cols"@, JsonV::Int(cols as i64));
            lemma_lookup_put(o, "rows"@, JsonV::Int(rows as i64), "type"@);
            lemma_lookup_put(o, "rows"@, JsonV::Int(rows as i64), "id"@);
            lemma_lookup_put(o, "rows"@, JsonV::Int(rows as i64), "cols"@);
            lemma_lookup_put(o, "rows"@, JsonV::Int(rows as i64), "rows"@);
        },
        ActorMsg::Cwd { id } => {
            lemma_request_head("cwd"@, id@, "data"@, JsonV::Null);
        },
        ActorMsg::Dispose { id } => {
            lemma_request_head("dispose"@, id@, "data"@, JsonV::Null);
        },
    }
}

/// A session that was started is answered under the id it was asked for, with
/// what came of it otherwise untouched.
pub proof fn law_a_start_is_answered_under_its_id(
    cwd: Option<Seq<char>>,
    other: Seq<char>,
    shell: Seq<char>,
    id: Seq<char>,
    e: Seq<char>,
)
    ensures
        start_answer(Ok(StartedV { cwd, id: other, shell }), id) == Ok::<StartedV, Seq<char>>(
            StartedV { cwd, id, shell },
        ),
        start_answer(Err(e), id) == Err::<StartedV, Seq<char>>(e),
{
}

/// The runtime is the one named for this app, else the one named for all, else
/// the one that was found; without any there is an error.
pub proof fn law_the_named_runtime_comes_first(
    own: Option<Seq<char>>,
    node: Option<Seq<char>>,
    found: Option<Seq<char>>,
    path: Seq<char>,
)
    requires
        trimmed(path) == path,
        path.len() > 0,
    ensures
        own == Some(path) ==> runtime_of(own, node, found) == Ok::<Seq<char>, Seq<char>>(path),
        own matches Some(o) ==> trimmed(o) == path ==> runtime_of(own, node, found) == Ok::<
            Seq<char>,
            Seq<char>,
        >(path),
        own is None ==> (node matches Some(o) ==> trimmed(o) == path ==> runtime_of(
            own,
            node,
            found,
        ) == Ok::<Seq<char>, Seq<char>>(path)),
        own is None && node == Some(path) ==> runtime_of(own, node, found) == Ok::<
            Seq<char>,
            Seq<char>,
        >(path),
        own is None && node is None ==> (match found {
            Some(f) => runtime_of(own, node, found) == Ok::<Seq<char>, Seq<char>>(f),
            None => runtime_of(own, node, found) is Err,
        }),
{
    let e = Seq::<char>::empty();
    assert(trimmed(e) =~= e);
}

/// The directories of a search path are looked through in their order, and empty
/// ones are passed over.
pub proof fn law_search_directories_keep_their_order(a: Seq<char>, b: Seq<char>, d: Seq<char>)
    requires
        !d.contains(';'),
    ensures
        search_dirs(a + seq![';'] + b) == search_dirs(a) + search_dirs(b),
        d.len() > 0 ==> search_dirs(d) == seq![d],
        d.len() == 0 ==> search_dirs(d) == Seq::<Seq<char>>::empty(),
{
    let f = |x: Seq<char>|
        if x.len() == 0 {
            None
        } else {
            Some(x)
        };
    law_pieces_part_at_a_separator(a, b, ';');
    law_picking_goes_piece_by_piece(split_of(a, ';'), split_of(b, ';'), f);
    assert forall|i: int| 0 <= i < d.len() implies #[trigger] d[i] != ';' by {
        assert(d.contains(d[i]));
    }
    lemma_split_one(d, ';');
    assert(f(d) == if d.len() == 0 {
        None
    } else {
        Some(d)
    });
}

// ---------------------------------------------------------------------------
// Served files
// ---------------------------------------------------------------------------

/// A file that exists is served itself, whatever its name and whether or not
/// there is an index; a directory is answered by its own index where it has one.
pub proof fn law_an_existing_file_is_served(rel: Seq<Seq<char>>, index_is_file: bool)
    ensures
        chosen_file(rel, false, true, index_is_file) == Some(rel),
        chosen_file(rel, true, true, index_is_file) == Some(rel.push("index.html"@)),
{
}

/// What does not exist is answered by the root index where its name has no
/// extension, as a client-side route has none, and is not found otherwise.
pub proof fn law_a_missing_file_is_a_route_or_not_found(
    rel: Seq<Seq<char>>,
    name: Seq<char>,
    stem: Seq<char>,
    ext: Seq<char>,
    is_dir: bool,
)
    requires
        !name.contains('.'),
        stem.len() > 0,
        !ext.contains('.'),
        ext.len() > 0,
    ensures
        chosen_file(Seq::empty(), is_dir, false, true) == Some(seq!["index.html"@]),
        chosen_file(rel.push(name), is_dir, false, true) == Some(seq!["index.html"@]),
        chosen_file(rel.push(name), is_dir, false, false) is None,
        chosen_file(rel.push(stem + seq!['.'] + ext), is_dir, false, true) is None,
        chosen_file(rel, is_dir, false, false) is None,
{
    law_an_extension_is_what_follows_the_last_dot(name, stem, ext);
    assert(rel.push(name).last() == name);
    assert(rel.push(stem + seq!['.'] + ext).last() == stem + seq!['.'] + ext);
}

/// An extension is what follows the last dot, where something comes before it.
pub proof fn law_an_extension_is_what_follows_the_last_dot(
    name: Seq<char>,
    stem: Seq<char>,
    ext: Seq<char>,
)
    requires
        !name.contains('.'),
        !ext.contains('.'),
    ensures
        extension_of(name) is None,
        extension_of(seq!['.'] + name) is None,
        stem.len() > 0 && ext.len() > 0 ==> extension_of(stem + seq!['.'] + ext) == Some(ext),
{
    let s = stem + seq!['.'] + ext;
    let h = seq!['.'] + name;
    lemma_last_index_of(name, '.');
    lemma_last_index_of(s, '.');
    lemma_last_index_of(h, '.');
    if let Some(i) = last_index_of(name, '.') {
        assert(name[i] == '.');
    }
    assert(h[0] == '.');
    if let Some(i) = last_index_of(h, '.') {
        if i > 0 {
            assert(name[i - 1] == '.');
        }
    }
    if stem.len() > 0 && ext.len() > 0 {
        assert(s[stem.len() as int] == '.');
        let i = last_index_of(s, '.')->0;
        if i > stem.len() {
            assert(ext[i - stem.len() - 1] == '.');
        }
        assert(s.skip(stem.len() as int + 1) =~= ext);
        reveal_strlit("..");
        if s == ".."@ {
            assert(ext[0] == s[stem.len() as int + 1]);
            assert(ext[0] == '.');
        }
    }
}

/// A name that a request may ask for: something, without a separator, and not one
/// that leads elsewhere.
pub open spec fn servable(s: Seq<char>, windows: bool) -> bool {
    &&& s.len() > 0
    &&& s != "."@ && s != ".."@
    &&& !s.contains('/') && !s.contains('\\') && !s.contains('\0')
    &&& windows ==> !names_drive(s)
}

proof fn lemma_split_join(p: Seq<Seq<char>>, windows: bool)
    requires
        p.len() > 0,
        forall|i: int| 0 <= i < p.len() ==> servable(#[trigger] p[i], windows),
    ensures
        split_of(join_of(p, seq!['/']), '/') == p,
    decreases p.len(),
{
    let x = p.last();
    assert(servable(p[p.len() - 1], windows));
    assert forall|i: int| 0 <= i < x.len() implies #[trigger] x[i] != '/' by {
        assert(x.contains(x[i]));
    }
    if p.len() == 1 {
        lemma_split_one(x, '/');
        assert(p =~= seq![x]);
    } else {
        let q = p.drop_last();
        assert forall|i: int| 0 <= i < q.len() implies servable(#[trigger] q[i], windows) by {
            assert(q[i] == p[i]);
        }
        lemma_split_join(q, windows);
        lemma_split_append(join_of(q, seq!['/']), x, '/');
        assert(q.push(x) =~= p);
    }
}

proof fn lemma_all_safe(p: Seq<Seq<char>>, windows: bool)
    requires
        forall|i: int| 0 <= i < p.len() ==> servable(#[trigger] p[i], windows),
    ensures
        safe_segments(p, windows) == Some(p),
    decreases p.len(),
{
    if p.len() > 0 {
        let q = p.drop_last();
        assert forall|i: int| 0 <= i < q.len() implies servable(#[trigger] q[i], windows) by {
            assert(q[i] == p[i]);
        }
        lemma_all_safe(q, windows);
        assert(servable(p[p.len() - 1], windows));
        assert(q.push(p.last()) =~= p);
    } else {
        assert(p =~= Seq::<Seq<char>>::empty());
    }
}

/// A read for a path of plain names, however it is escaped, looks for just these
/// names below the root, in their order.
pub proof fn law_a_path_is_looked_for_by_its_names(
    p: Seq<Seq<char>>,
    method: Method,
    windows: bool,
)
    requires
        p.len() > 0,
        forall|i: int| 0 <= i < p.len() ==> servable(#[trigger] p[i], windows),
        method != Method::Other,
    ensures
        request_of(method, escape_of(Keep::Path, join_of(p, seq!['/'])), windows) == Ok::<
            Seq<Seq<char>>,
            u16,
        >(p),
{
    let s = join_of(p, seq!['/']);
    let e = escape_of(Keep::Path, s);
    law_decode_undoes_encode(Keep::Path, s);
    lemma_split_join(p, windows);
    lemma_all_safe(p, windows);
    lemma_escaped_has_no_query(s);
    lemma_path_part_all(e);
}

proof fn lemma_escaped_has_no_query(s: Seq<char>)
    ensures
        forall|i: int|
            0 <= i < escape_of(Keep::Path, s).len() ==> #[trigger] escape_of(Keep::Path, s)[i] != '?'
                && escape_of(Keep::Path, s)[i] != '#',
    decreases s.len(),
{
    if s.len() > 0 {
        let t = escape_of(Keep::Path, s.drop_first());
        let c = crate::escape::escape_char(Keep::Path, s[0]);
        lemma_escaped_has_no_query(s.drop_first());
        lemma_escape_bytes_plain(encode_utf8(seq![s[0]]));
        let e = escape_of(Keep::Path, s);
        assert forall|i: int| 0 <= i < e.len() implies #[trigger] e[i] != '?' && e[i] != '#' by {
            if i < c.len() {
                assert(e[i] == c[i]);
            } else {
                assert(e[i] == t[i - c.len()]);
            }
        }
    }
}

proof fn lemma_escape_bytes_plain(b: Seq<u8>)
    ensures
        forall|i: int|
            0 <= i < crate::escape::escape_bytes(b).len() ==> #[trigger] crate::escape::escape_bytes(
                b,
            )[i] != '?' && crate::escape::escape_bytes(b)[i] != '#',
    decreases b.len(),
{
    if b.len() > 0 {
        lemma_escape_bytes_plain(b.drop_first());
        let h = crate::escape::escape_byte(b[0]);
        let t = crate::escape::escape_bytes(b.drop_first());
        let e = crate::escape::escape_bytes(b);
        assert forall|i: int| 0 <= i < e.len() implies #[trigger] e[i] != '?' && e[i] != '#' by {
            if i < 3 {
                assert(e[i] == h[i]);
            } else {
                assert(e[i] == t[i - 3]);
            }
        }
    }
}

proof fn lemma_path_part_all(p: Seq<char>)
    requires
        forall|i: int| 0 <= i < p.len() ==> #[trigger] p[i] != '?' && p[i] != '#',
    ensures
        path_part(p) == p,
    decreases p.len(),
{
    if p.len() > 0 {
        let q = p.drop_first();
        assert forall|i: int| 0 <= i < q.len() implies #[trigger] q[i] != '?' && q[i] != '#' by {
            assert(q[i] == p[i + 1]);
        }
        lemma_path_part_all(q);
        assert(seq![p[0]] + q =~= p);
    } else {
        assert(p =~= Seq::<char>::empty());
    }
}

/// A query or a fragment does not matter: the path in front of it is what counts.
pub proof fn law_queries_do_not_matter(p: Seq<char>, mark: char, rest: Seq<char>, windows: bool)
    requires
        forall|i: int| 0 <= i < p.len() ==> #[trigger] p[i] != '?' && p[i] != '#',
        mark == '?' || mark == '#',
    ensures
        path_part(p + seq![mark] + rest) == p,
        request_of(Method::Get, p + seq![mark] + rest, windows) == request_of(
            Method::Get,
            p,
            windows,
        ),
    decreases p.len(),
{
    lemma_path_part_all(p);
    let s = p + seq![mark] + rest;
    if p.len() == 0 {
        assert(s[0] == mark);
    } else {
        let q = p.drop_first();
        assert forall|i: int| 0 <= i < q.len() implies #[trigger] q[i] != '?' && q[i] != '#' by {
            assert(q[i] == p[i + 1]);
        }
        law_queries_do_not_matter(q, mark, rest, windows);
        assert(s.drop_first() =~= q + seq![mark] + rest);
        assert(s[0] == p[0]);
        assert(seq![p[0]] + q =~= p);
    }
}

/// Reads alone are answered, by either verb alike; a path that could lead out is
/// forbidden.
pub proof fn law_only_reads_are_answered(url: Seq<char>, windows: bool)
    ensures
        request_of(Method::Other, url, windows) == Err::<Seq<Seq<char>>, u16>(405u16),
        request_of(Method::Get, url, windows) == request_of(Method::Head, url, windows),
        request_of(Method::Get, url, windows) is Err ==> request_of(Method::Get, url, windows)
            == Err::<Seq<Seq<char>>, u16>(403u16),
        request_of(Method::Get, url, windows) is Err <==> sanitized(path_part(url), windows)
            is None,
{
}

/// The type of a file is the one known for its extension; text of every kind is
/// said to be UTF-8, and nothing else is.
pub proof fn law_a_file_has_the_type_of_its_extension(stem: Seq<char>, ext: Seq<char>)
    requires
        stem.len() > 0,
        ext.len() > 0,
        !ext.contains('.'),
    ensures
        ({
            let (base, top) = mime_of(ext);
            let name = stem + seq!['.'] + ext;
            if top == "text"@ || base == "application/javascript"@ || base == "application/json"@
                || base == "image/svg+xml"@ {
                served_type(name) == base + "; charset=utf-8"@
            } else {
                served_type(name) == base
            }
        }),
{
    law_an_extension_is_what_follows_the_last_dot(Seq::empty(), stem, ext);
}

/// A debug build loads the development server and no other; a release loads what
/// is served, and never the development server.
pub proof fn law_windows_load_the_server_that_runs(
    dev: Option<Seq<char>>,
    served: Option<Seq<char>>,
    url: Seq<char>,
)
    ensures
        base_url_of(true, Some(url), served) == url,
        base_url_of(false, dev, Some(url)) == url,
        base_url_of(true, None, served) == "http://localhost:5174"@,
        base_url_of(false, dev, None) == "http://tauri.localhost"@,
{
}

// ---------------------------------------------------------------------------
// Windows
// ---------------------------------------------------------------------------

/// The address of a session's window leads back to the session: behind the base
/// and the flags stands the session, escaped, and decoding gives it back. A window
/// without a session is the base alone.
pub proof fn law_a_window_leads_to_its_session(base: Seq<char>, session: Seq<char>, watch: bool)
    requires
        base.len() > 0,
        base.last() != '/',
    ensures
        window_url(base, Some(session), watch) == base + (if watch {
            "/?win=secondary&watch=1#/"@
        } else {
            "/?win=secondary#/"@
        }) + escape_of(Keep::Unreserved, session),
        percent_decoded(escape_of(Keep::Unreserved, session)) == Some(session),
        window_url(base, None, watch) == base + "/"@,
        window_url(base + "/"@, Some(session), watch) == window_url(base, Some(session), watch),
{
    reveal_strlit("/?win=secondary&watch=1#/");
    reveal_strlit("/?win=secondary#/");
    reveal_strlit("?win=secondary&watch=1");
    reveal_strlit("?win=secondary");
    reveal_strlit("/");
    reveal_strlit("#/");
    law_decode_undoes_encode(Keep::Unreserved, session);
    let k = Class::One('/');
    assert(trim_end_of(base, k) == base);
    let b = base + "/"@;
    assert(b.drop_last() =~= base);
    assert(b.last() == '/');
    assert(trim_end_of(b, k) == base);
    let e = escape_of(Keep::Unreserved, session);
    assert(window_url(base, Some(session), watch) =~= base + (if watch {
        "/?win=secondary&watch=1#/"@
    } else {
        "/?win=secondary#/"@
    }) + e);
    assert(window_url(base, None, watch) =~= base + "/"@);
}

/// A request names its session without the white space around it, and names one.
pub proof fn law_a_session_is_named(id: Seq<char>)
    ensures
        trimmed(id) == id && id.len() > 0 ==> session_named(id) == Ok::<Seq<char>, Seq<char>>(id),
        trimmed(id).len() == 0 ==> session_named(id) is Err,
        session_named(id) == session_named(trimmed(id)),
{
    crate::text::lemma_trim_idempotent(id, Class::White);
}

/// An id of letters and numbers that is short enough is its own label, so that
/// different sessions have different windows.
pub proof fn law_a_plain_id_is_its_label(id: Seq<char>)
    requires
        id.len() > 0,
        encode_utf8(id).len() <= 48,
        forall|i: int| 0 <= i < id.len() ==> letter_or_number(#[trigger] id[i]) && id[i] != '-',
    ensures
        label_of(id) == id,
{
    assert(dashed(id) =~= id);
    assert(letter_or_number(id[0]) && id[0] != '-');
    assert(id.last() == id[id.len() - 1]);
    crate::text::lemma_trim_fixed(id, Class::One('-'));
}

/// What does not fit is cut: the label is a start of the id, and one more
/// character would not have fitted.
pub proof fn law_a_cut_is_as_long_as_fits(s: Seq<char>, n: nat)
    ensures
        fit_bytes(s, n).is_prefix_of(s),
        encode_utf8(s).len() <= n ==> fit_bytes(s, n) == s,
        fit_bytes(s, n).len() > 0 ==> encode_utf8(fit_bytes(s, n)).len() <= n,
        fit_bytes(s, n).len() < s.len() ==> encode_utf8(
            s.take(fit_bytes(s, n).len() as int + 1),
        ).len() > n,
    decreases s.len(),
{
    if s.len() > 0 && encode_utf8(s).len() > n {
        law_a_cut_is_as_long_as_fits(s.drop_last(), n);
        let f = fit_bytes(s.drop_last(), n);
        if f.len() < s.drop_last().len() {
            assert(s.drop_last().take(f.len() as int + 1) =~= s.take(f.len() as int + 1));
        } else {
            assert(s.take(f.len() as int + 1) =~= s);
        }
        assert(f =~= s.take(f.len() as int));
    } else {
        assert(s.take(s.len() as int) =~= s);
    }
}

/// The id of a session tells when it was started and which one it was.
pub proof fn law_an_id_tells_sessions_apart(ms: nat, n: nat, m: nat)
    ensures
        id_of(ms, n).take(5) == "term-"@,
        id_of(ms, n).skip(5) == crate::text::hex_nat(ms) + "-"@ + dec(n),
        n != m ==> id_of(ms, n) != id_of(ms, m),
{
    reveal_strlit("term-");
    reveal_strlit("-");
    assert("term-"@.len() == 5 && "-"@.len() == 1);
    assert(id_of(ms, n).take(5) =~= "term-"@);
    assert(id_of(ms, n).skip(5) =~= crate::text::hex_nat(ms) + "-"@ + dec(n));
    let k = 6 + crate::text::hex_nat(ms).len() as int;
    assert(id_of(ms, n).skip(k) =~= dec(n));
    assert(id_of(ms, m).skip(k) =~= dec(m));
    crate::text_laws::law_numbers_read_back(n as int);
    crate::text_laws::law_numbers_read_back(m as int);
}

} // verus!
