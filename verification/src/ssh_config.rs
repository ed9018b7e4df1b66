//! Reading the OpenSSH client configuration: the host aliases, through the files
//! that it draws in, and what `ssh -G` makes of a host.

use crate::json::{fields, no_fields, opt_str, put, set_field, strs, Json, JsonV};
use crate::outside::{lossy_text, lowercase, text_lossy, to_lowercase};
use crate::paths::{components, components_of, same_components};
use crate::text::{
    after_prefix, ascii_lower, chars_of, dec_int, decimal_int, find_char, index_of, lines, lines_of,
    list_has, opt_text, parse_i64, parse_int_of, same, starts, starts_with, strip_prefix,
    text_range, texts, to_ascii_lower, trim, trimmed, words, words_of, Class,
};
use vstd::prelude::*;

verus! {

// ---------------------------------------------------------------------------
// Directives
// ---------------------------------------------------------------------------

/// A line split at its first space.
pub open spec fn split_once_of(line: Seq<char>) -> Option<(Seq<char>, Seq<char>)> {
    match index_of(line, ' ') {
        Some(i) => Some((line.take(i), line.skip(i + 1))),
        None => None,
    }
}

fn split_once(line: &str) -> (r: Option<(String, String)>)
    ensures
        match r {
            Some((a, b)) => split_once_of(line@) == Some((a@, b@)),
            None => split_once_of(line@) is None,
        },
{
    let v = chars_of(line);
    let n: usize = v.len();
    match find_char(&v, ' ') {
        None => None,
        Some(i) => {
            assert(v@.subrange(0, i as int) =~= line@.take(i as int));
            assert(v@.subrange(i + 1, v@.len() as int) =~= line@.skip(i + 1));
            Some((text_range(&v, 0, i), text_range(&v, i + 1, n)))
        },
    }
}

/// What follows a keyword, in any letter case, and a space.
pub open spec fn after_key(line: Seq<char>, key: Seq<char>) -> Option<Seq<char>> {
    match split_once_of(line) {
        Some((head, rest)) => if ascii_lower(head) == ascii_lower(key) {
            Some(rest)
        } else {
            None
        },
        None => None,
    }
}

pub fn strip_ci_prefix(line: &str, key: &str) -> (r: Option<String>)
    ensures
        opt_text(r) == after_key(line@, key@),
{
    match split_once(line) {
        Some((head, rest)) => if same(&to_ascii_lower(&head), &to_ascii_lower(key)) {
            Some(rest)
        } else {
            None
        },
        None => None,
    }
}

/// The words of a directive; none of another line, an empty one or a comment.
pub open spec fn directive(raw: Seq<char>, key: Seq<char>) -> Seq<Seq<char>> {
    let line = trimmed(raw);
    if line.len() == 0 || starts(line, "#"@) {
        Seq::empty()
    } else {
        match after_key(line, key) {
            Some(rest) => words_of(rest, Class::White),
            None => Seq::empty(),
        }
    }
}

fn directive_words(raw: &str, key: &str) -> (r: Vec<String>)
    ensures
        texts(r@) == directive(raw@, key@),
{
    let none: Vec<String> = Vec::new();
    assert(texts(none@) =~= Seq::<Seq<char>>::empty());
    let line = trim(raw);
    if line.as_str().is_empty() || starts_with(&line, "#") {
        return none;
    }
    match strip_ci_prefix(&line, key) {
        Some(rest) => words(&rest, Class::White),
        None => none,
    }
}

/// Whether a pattern names one host: no wildcard, no negation.
pub open spec fn plain_host(p: Seq<char>) -> bool {
    p.len() > 0 && !p.contains('*') && !p.contains('?') && !starts(p, "!"@)
}

fn is_plain_host(p: &str) -> (r: bool)
    ensures
        r == plain_host(p@),
{
    let v = chars_of(p);
    let star = find_char(&v, '*').is_some();
    let mark = find_char(&v, '?').is_some();
    proof {
        crate::text::lemma_index_from(v@, '*', 0);
        crate::text::lemma_index_from(v@, '?', 0);
    }
    v.len() > 0 && !star && !mark && !starts_with(p, "!")
}

/// The text of a configuration file, where it could be read. Bytes that are not
/// UTF-8, as in a file edited by hand in Latin-1, are replaced: the file still
/// counts.
pub fn read_file_lossy(bytes: &Option<Vec<u8>>) -> (r: Option<String>)
    ensures
        opt_text(r) == match *bytes {
            Some(b) => Some(lossy_text(b@)),
            None => None,
        },
{
    match bytes {
        Some(b) => Some(text_lossy(b)),
        None => None,
    }
}

/// The names with those of `more` added that are not there yet.
pub open spec fn with_new(names: Seq<Seq<char>>, more: Seq<Seq<char>>) -> Seq<Seq<char>>
    decreases more.len(),
{
    if more.len() == 0 {
        names
    } else {
        let before = with_new(names, more.drop_last());
        if before.contains(more.last()) {
            before
        } else {
            before.push(more.last())
        }
    }
}

proof fn lemma_with_new(names: Seq<Seq<char>>, more: Seq<Seq<char>>)
    requires
        names.no_duplicates(),
    ensures
        with_new(names, more).no_duplicates(),
    decreases more.len(),
{
    if more.len() > 0 {
        lemma_with_new(names, more.drop_last());
    }
}

fn push_new(names: &mut Vec<String>, more: &Vec<String>)
    ensures
        texts(final(names)@) == with_new(texts(old(names)@), texts(more@)),
{
    let ghost start = texts(names@);
    let ghost all = texts(more@);
    assert(all.take(0) =~= Seq::<Seq<char>>::empty());
    let mut i: usize = 0;
    while i < more.len()
        invariant
            i <= more@.len(),
            all == texts(more@),
            texts(names@) == with_new(start, all.take(i as int)),
        decreases more@.len() - i,
    {
        assert(all.take(i + 1).drop_last() =~= all.take(i as int));
        assert(all.take(i + 1).last() == more@[i as int]@);
        if !list_has(names, &more[i]) {
            let ghost before = texts(names@);
            let s = more[i].clone();
            names.push(s);
            assert(texts(names@) =~= before.push(s@));
        }
        i += 1;
    }
    assert(all.take(i as int) =~= all);
}

pub open spec fn plain_only(w: Seq<Seq<char>>) -> Seq<Seq<char>>
    decreases w.len(),
{
    if w.len() == 0 {
        Seq::empty()
    } else if plain_host(w.last()) {
        plain_only(w.drop_last()).push(w.last())
    } else {
        plain_only(w.drop_last())
    }
}

fn keep_plain(w: &Vec<String>) -> (r: Vec<String>)
    ensures
        texts(r@) == plain_only(texts(w@)),
{
    let ghost all = texts(w@);
    let mut out: Vec<String> = Vec::new();
    assert(texts(out@) =~= plain_only(all.take(0)));
    let mut i: usize = 0;
    while i < w.len()
        invariant
            i <= w@.len(),
            all == texts(w@),
            texts(out@) == plain_only(all.take(i as int)),
        decreases w@.len() - i,
    {
        assert(all.take(i + 1).drop_last() =~= all.take(i as int));
        assert(all.take(i + 1).last() == w@[i as int]@);
        if is_plain_host(&w[i]) {
            let ghost before = texts(out@);
            let s = w[i].clone();
            out.push(s);
            assert(texts(out@) =~= before.push(s@));
        }
        i += 1;
    }
    assert(all.take(i as int) =~= all);
    out
}

/// The host aliases of a configuration, each once, in the order of the file.
pub open spec fn hosts_of(l: Seq<Seq<char>>) -> Seq<Seq<char>>
    decreases l.len(),
{
    if l.len() == 0 {
        Seq::empty()
    } else {
        with_new(hosts_of(l.drop_last()), plain_only(directive(l.last(), "host"@)))
    }
}

pub fn parse_ssh_config_hosts(text: &str) -> (r: Vec<String>)
    ensures
        texts(r@) == hosts_of(lines_of(text@)),
{
    let all = lines(text);
    let ghost l = lines_of(text@);
    let mut out: Vec<String> = Vec::new();
    assert(texts(out@) =~= hosts_of(l.take(0)));
    let mut i: usize = 0;
    while i < all.len()
        invariant
            i <= all@.len(),
            texts(all@) == l,
            texts(out@) == hosts_of(l.take(i as int)),
        decreases all@.len() - i,
    {
        assert(l.take(i + 1).drop_last() =~= l.take(i as int));
        assert(l.take(i + 1).last() == all@[i as int]@) by {
            assert(texts(all@)[i as int] == all@[i as int]@);
        }
        push_new(&mut out, &keep_plain(&directive_words(&all[i], "host")));
        i += 1;
    }
    assert(l.take(i as int) =~= l);
    out
}

/// The files that a configuration draws in.
pub open spec fn drawn_in_of(l: Seq<Seq<char>>) -> Seq<Seq<char>>
    decreases l.len(),
{
    if l.len() == 0 {
        Seq::empty()
    } else {
        drawn_in_of(l.drop_last()) + directive(l.last(), "include"@)
    }
}

pub fn parse_ssh_config_includes(text: &str) -> (r: Vec<String>)
    ensures
        texts(r@) == drawn_in_of(lines_of(text@)),
{
    let all = lines(text);
    let ghost l = lines_of(text@);
    let mut out: Vec<String> = Vec::new();
    assert(texts(out@) =~= drawn_in_of(l.take(0)));
    let mut i: usize = 0;
    while i < all.len()
        invariant
            i <= all@.len(),
            texts(all@) == l,
            texts(out@) == drawn_in_of(l.take(i as int)),
        decreases all@.len() - i,
    {
        assert(l.take(i + 1).drop_last() =~= l.take(i as int));
        assert(l.take(i + 1).last() == all@[i as int]@) by {
            assert(texts(all@)[i as int] == all@[i as int]@);
        }
        let mut more = directive_words(&all[i], "include");
        let ghost before = texts(out@);
        let ghost add = texts(more@);
        out.append(&mut more);
        assert(texts(out@) =~= before + add);
        i += 1;
    }
    assert(l.take(i as int) =~= l);
    out
}

/// Where a drawn-in file lies.
pub enum Drawn {
    /// Below the home directory.
    BelowHome(String),
    /// As it is when it is absolute, else below the `.ssh` directory.
    Given(String),
}

pub enum DrawnV {
    BelowHome(Seq<char>),
    Given(Seq<char>),
}

impl View for Drawn {
    type V = DrawnV;

    open spec fn view(&self) -> DrawnV {
        match self {
            Drawn::BelowHome(s) => DrawnV::BelowHome(s@),
            Drawn::Given(s) => DrawnV::Given(s@),
        }
    }
}

/// Where a token of a directive leads.
pub open spec fn drawn_of(token: Seq<char>) -> DrawnV {
    match after_prefix(token, "~/"@) {
        Some(rest) => DrawnV::BelowHome(rest),
        None => DrawnV::Given(token),
    }
}

pub fn drawn_path(token: &str) -> (r: Drawn)
    ensures
        r@ == drawn_of(token@),
{
    match strip_prefix(token, "~/") {
        Some(rest) => Drawn::BelowHome(rest),
        None => Drawn::Given(token.to_string()),
    }
}

// ---------------------------------------------------------------------------
// The walk through the files
// ---------------------------------------------------------------------------

/// How many files deep the walk goes.
pub const DRAWN_DEPTH_MAX: usize = 8;

/// A walk under way: depth first, in the order of the directives. The file that
/// is read next is the last pending one.
pub struct SshWalk {
    pub pending: Vec<(String, usize)>,
    /// The files that were read, or tried.
    pub visited: Vec<String>,
    /// Whether the paths are those of Windows.
    pub windows: bool,
    /// The depth of the file that is being read.
    pub depth: usize,
    pub hosts: Vec<String>,
}

#[verifier::ext_equal]
pub struct WalkV {
    pub pending: Seq<(Seq<char>, nat)>,
    pub visited: Seq<Seq<char>>,
    pub windows: bool,
    pub depth: nat,
    pub hosts: Seq<Seq<char>>,
}

pub open spec fn pending_files(v: Seq<(String, usize)>) -> Seq<(Seq<char>, nat)> {
    v.map_values(|p: (String, usize)| (p.0@, p.1 as nat))
}

impl View for SshWalk {
    type V = WalkV;

    open spec fn view(&self) -> WalkV {
        WalkV {
            pending: pending_files(self.pending@),
            visited: texts(self.visited@),
            windows: self.windows,
            depth: self.depth as nat,
            hosts: texts(self.hosts@),
        }
    }
}

/// Whether a path was visited, however it was written then: paths are the same
/// one when their components are.
pub open spec fn was_visited(visited: Seq<Seq<char>>, windows: bool, path: Seq<char>) -> bool {
    exists|i: int|
        0 <= i < visited.len() && components_of(#[trigger] visited[i], windows) == components_of(
            path,
            windows,
        )
}

/// What holds all along: no file is read twice, none lies too deep, and no host
/// is listed twice.
pub open spec fn walk_sound(s: WalkV) -> bool {
    &&& forall|i: int, j: int|
        0 <= i < j < s.visited.len() ==> components_of(#[trigger] s.visited[i], s.windows)
            != components_of(#[trigger] s.visited[j], s.windows)
    &&& s.hosts.no_duplicates()
    &&& s.depth <= 8
}

/// The next file, and the walk once it is being read. Files that lie too deep or
/// were visited are passed over.
pub open spec fn advanced(s: WalkV) -> (Option<Seq<char>>, WalkV)
    decreases s.pending.len(),
{
    if s.pending.len() == 0 {
        (None, s)
    } else {
        let (path, depth) = s.pending.last();
        let rest = WalkV { pending: s.pending.drop_last(), ..s };
        if depth > 8 || was_visited(s.visited, s.windows, path) {
            advanced(rest)
        } else {
            (Some(path), WalkV { visited: s.visited.push(path), depth, ..rest })
        }
    }
}

/// The walk once the file was read. `targets` are the files that it draws in, in
/// their order; an unreadable file gives nothing.
pub open spec fn taken_in(s: WalkV, text: Option<Seq<char>>, targets: Seq<Seq<char>>) -> WalkV {
    match text {
        None => s,
        Some(t) => WalkV {
            hosts: with_new(s.hosts, hosts_of(lines_of(t))),
            pending: s.pending + targets.reverse().map_values(|p: Seq<char>| (p, s.depth + 1)),
            ..s
        },
    }
}

impl SshWalk {
    pub fn start(root: &str, windows: bool) -> (r: SshWalk)
        ensures
            r@ == (WalkV {
                pending: seq![(root@, 0nat)],
                visited: Seq::empty(),
                windows,
                depth: 0,
                hosts: Seq::empty(),
            }),
            walk_sound(r@),
    {
        let mut pending: Vec<(String, usize)> = Vec::new();
        pending.push((root.to_string(), 0));
        assert(pending_files(pending@) =~= seq![(root@, 0nat)]);
        let visited: Vec<String> = Vec::new();
        let hosts: Vec<String> = Vec::new();
        assert(texts(visited@) =~= Seq::<Seq<char>>::empty());
        SshWalk { pending, visited, windows, depth: 0, hosts }
    }

    fn has_visited(&self, path: &str) -> (r: bool)
        ensures
            r == was_visited(self@.visited, self.windows, path@),
    {
        let want = components(path, self.windows);
        let mut i: usize = 0;
        while i < self.visited.len()
            invariant
                i <= self.visited@.len(),
                texts(want@) == components_of(path@, self.windows),
                forall|j: int|
                    0 <= j < i ==> components_of(#[trigger] self@.visited[j], self.windows)
                        != components_of(path@, self.windows),
            decreases self.visited@.len() - i,
        {
            assert(self@.visited[i as int] == self.visited@[i as int]@);
            if same_components(&components(&self.visited[i], self.windows), &want) {
                return true;
            }
            i += 1;
        }
        false
    }

    /// The next file to read.
    pub fn next(&mut self) -> (r: Option<String>)
        requires
            walk_sound(old(self)@),
        ensures
            (opt_text(r), final(self)@) == advanced(old(self)@),
            walk_sound(final(self)@),
    {
        let ghost start = self@;
        while self.pending.len() > 0
            invariant
                walk_sound(self@),
                advanced(start) == advanced(self@),
                start == old(self)@,
            decreases self.pending@.len(),
        {
            let ghost now = self@;
            let n: usize = self.pending.len();
            let (path, depth) = self.pending.remove(n - 1);
            assert(now.pending.last() == (path@, depth as nat));
            assert(pending_files(self.pending@) =~= now.pending.drop_last());
            if depth <= DRAWN_DEPTH_MAX && !self.has_visited(&path) {
                let ghost before = texts(self.visited@);
                self.visited.push(path.clone());
                assert(texts(self.visited@) =~= before.push(path@));
                self.depth = depth;
                return Some(path);
            }
            assert(self@ == (WalkV { pending: now.pending.drop_last(), ..now }));
        }
        None
    }

    /// Takes in the file that was read.
    pub fn take_in(&mut self, text: &Option<String>, targets: &Vec<String>)
        requires
            walk_sound(old(self)@),
        ensures
            final(self)@ == taken_in(old(self)@, opt_text(*text), texts(targets@)),
            walk_sound(final(self)@),
    {
        let ghost start = self@;
        if let Some(t) = text {
            let found = parse_ssh_config_hosts(t);
            proof {
                lemma_with_new(start.hosts, hosts_of(lines_of(t@)));
            }
            push_new(&mut self.hosts, &found);
            let ghost want = texts(targets@).reverse().map_values(
                |p: Seq<char>| (p, start.depth + 1),
            );
            let mut n: usize = targets.len();
            assert(start.pending + want.take(0) =~= start.pending);
            while n > 0
                invariant
                    n <= targets@.len(),
                    start == old(self)@,
                    self.depth == start.depth,
                    start.depth <= 8,
                    texts(self.visited@) == start.visited,
                    self.windows == start.windows,
                    texts(self.hosts@) == with_new(start.hosts, hosts_of(lines_of(t@))),
                    want == texts(targets@).reverse().map_values(
                        |p: Seq<char>| (p, start.depth + 1),
                    ),
                    pending_files(self.pending@) == start.pending + want.take(targets@.len() - n),
                decreases n,
            {
                n -= 1;
                let ghost before = pending_files(self.pending@);
                let pair = (targets[n].clone(), self.depth + 1);
                self.pending.push(pair);
                let ghost k = targets@.len() - 1 - n;
                assert(want[k] == (targets@[n as int]@, start.depth + 1));
                assert(pending_files(self.pending@) =~= before.push((pair.0@, pair.1 as nat)));
                assert(start.pending + want.take(k + 1) =~= before.push(want[k]));
            }
            assert(want.take(targets@.len() as int) =~= want);
        }
    }
}

/// However the files draw each other in, no file is read twice: the next one is
/// never one that was visited, under whatever spelling.
pub proof fn law_no_file_is_read_twice(s: WalkV)
    requires
        walk_sound(s),
    ensures
        match advanced(s).0 {
            Some(path) => !was_visited(s.visited, s.windows, path) && advanced(s).1.visited == s.visited.push(
                path,
            ),
            None => advanced(s).1.visited == s.visited,
        },
    decreases s.pending.len(),
{
    if s.pending.len() > 0 {
        law_no_file_is_read_twice(WalkV { pending: s.pending.drop_last(), ..s });
    }
}

/// The answer to a request for the aliases.
pub open spec fn hosts_answer(hosts: Seq<Seq<char>>) -> JsonV {
    JsonV::Obj(put(no_fields(), "hosts"@, strs(hosts)))
}

pub fn ssh_config_hosts(hosts: &Vec<String>) -> (r: Json)
    ensures
        r@ == hosts_answer(texts(hosts@)),
{
    broadcast use crate::json::group_json_views;

    let mut o: Vec<(String, Json)> = Vec::new();
    assert(fields(o@) =~= no_fields());
    set_field(&mut o, "hosts", Json::from_texts(hosts));
    Json::Obj(o)
}

// ---------------------------------------------------------------------------
// Resolving a host
// ---------------------------------------------------------------------------

/// How long `ssh -G` may take.
pub const SSH_TIMEOUT_MS: u64 = 10000;

/// What was read so far of the output of `ssh -G`.
#[verifier::ext_equal]
pub struct ResolvedV {
    pub hostname: Option<Seq<char>>,
    pub user: Option<Seq<char>>,
    pub port: Option<int>,
    pub identity_file: Option<Seq<char>>,
}

/// A port that fits.
pub open spec fn port_number(s: Seq<char>) -> Option<int> {
    match parse_int_of(s) {
        Some(n) => if i64::MIN <= n <= i64::MAX {
            Some(n)
        } else {
            None
        },
        None => None,
    }
}

/// One more line: the first value of each key counts.
pub open spec fn resolved_line(r: ResolvedV, raw: Seq<char>) -> ResolvedV {
    match split_once_of(trimmed(raw)) {
        None => r,
        Some((k, v)) => {
            let key = lowercase(k);
            let value = trimmed(v);
            if key == "hostname"@ {
                if r.hostname is None {
                    ResolvedV { hostname: Some(value), ..r }
                } else {
                    r
                }
            } else if key == "user"@ {
                if r.user is None {
                    ResolvedV { user: Some(value), ..r }
                } else {
                    r
                }
            } else if key == "port"@ {
                if r.port is None {
                    ResolvedV { port: port_number(value), ..r }
                } else {
                    r
                }
            } else if key == "identityfile"@ {
                if r.identity_file is None {
                    ResolvedV { identity_file: Some(value), ..r }
                } else {
                    r
                }
            } else {
                r
            }
        },
    }
}

pub open spec fn resolved_of(l: Seq<Seq<char>>) -> ResolvedV
    decreases l.len(),
{
    if l.len() == 0 {
        ResolvedV { hostname: None, user: None, port: None, identity_file: None }
    } else {
        resolved_line(resolved_of(l.drop_last()), l.last())
    }
}

pub open spec fn resolved_json(r: ResolvedV) -> JsonV {
    let o = put(no_fields(), "hostname"@, opt_str(r.hostname));
    let o = put(o, "identityFile"@, opt_str(r.identity_file));
    let o = put(
        o,
        "port"@,
        match r.port {
            Some(n) => JsonV::Int(n as i64),
            None => JsonV::Null,
        },
    );
    JsonV::Obj(put(o, "user"@, opt_str(r.user)))
}

struct Resolved {
    hostname: Option<String>,
    user: Option<String>,
    port: Option<i64>,
    identity_file: Option<String>,
}

impl View for Resolved {
    type V = ResolvedV;

    closed spec fn view(&self) -> ResolvedV {
        ResolvedV {
            hostname: opt_text(self.hostname),
            user: opt_text(self.user),
            port: match self.port {
                Some(n) => Some(n as int),
                None => None,
            },
            identity_file: opt_text(self.identity_file),
        }
    }
}

fn resolve_line(r: &mut Resolved, raw: &str)
    ensures
        final(r)@ == resolved_line(old(r)@, raw@),
{
    let line = trim(raw);
    if let Some((k, v)) = split_once(&line) {
        let key = to_lowercase(&k);
        let value = trim(&v);
        if same(&key, "hostname") {
            if r.hostname.is_none() {
                r.hostname = Some(value);
            }
        } else if same(&key, "user") {
            if r.user.is_none() {
                r.user = Some(value);
            }
        } else if same(&key, "port") {
            if r.port.is_none() {
                r.port = parse_i64(&value);
            }
        } else if same(&key, "identityfile") {
            if r.identity_file.is_none() {
                r.identity_file = Some(value);
            }
        }
    }
}

/// Reads the output of `ssh -G`.
pub fn parse_ssh_g_output(text: &str) -> (r: Json)
    ensures
        r@ == resolved_json(resolved_of(lines_of(text@))),
{
    broadcast use crate::json::group_json_views;

    let all = lines(text);
    let ghost l = lines_of(text@);
    let mut got = Resolved { hostname: None, user: None, port: None, identity_file: None };
    assert(l.take(0) =~= Seq::<Seq<char>>::empty());
    let mut i: usize = 0;
    while i < all.len()
        invariant
            i <= all@.len(),
            texts(all@) == l,
            got@ == resolved_of(l.take(i as int)),
        decreases all@.len() - i,
    {
        assert(l.take(i + 1).drop_last() =~= l.take(i as int));
        assert(l.take(i + 1).last() == all@[i as int]@) by {
            assert(texts(all@)[i as int] == all@[i as int]@);
        }
        resolve_line(&mut got, &all[i]);
        i += 1;
    }
    assert(l.take(i as int) =~= l);
    let port = match got.port {
        Some(n) => Json::Int(n),
        None => Json::Null,
    };
    let mut o: Vec<(String, Json)> = Vec::new();
    assert(fields(o@) =~= no_fields());
    set_field(&mut o, "hostname", Json::from_opt(&got.hostname));
    set_field(&mut o, "identityFile", Json::from_opt(&got.identity_file));
    set_field(&mut o, "port", port);
    set_field(&mut o, "user", Json::from_opt(&got.user));
    Json::Obj(o)
}

/// The host that a request names; an empty one is refused.
pub open spec fn named_host(host: Seq<char>) -> Result<Seq<char>, Seq<char>> {
    if trimmed(host).len() == 0 {
        Err("SSH host is required."@)
    } else {
        Ok(trimmed(host))
    }
}

pub fn ssh_host(host: &str) -> (r: Result<String, String>)
    ensures
        crate::text::text_result(r) == named_host(host@),
{
    let value = trim(host);
    if value.as_str().is_empty() {
        Err("SSH host is required.".to_string())
    } else {
        Ok(value)
    }
}

/// The arguments for a host. It cannot be taken for an option.
pub open spec fn ssh_args_of(host: Seq<char>) -> Seq<Seq<char>> {
    seq!["-G"@, "--"@, host]
}

pub fn ssh_args(host: &str) -> (r: Vec<String>)
    ensures
        texts(r@) == ssh_args_of(host@),
{
    let mut v: Vec<String> = Vec::new();
    v.push("-G".to_string());
    v.push("--".to_string());
    v.push(host.to_string());
    assert(texts(v@) =~= seq!["-G"@, "--"@, host@]);
    v
}

/// What a finished run of `ssh -G` comes to. `code` is minus one when it has
/// none.
pub open spec fn ssh_outcome(
    ok: bool,
    code: i32,
    stdout: Seq<char>,
    stderr: Seq<char>,
) -> Result<JsonV, Seq<char>> {
    if ok {
        Ok(resolved_json(resolved_of(lines_of(stdout))))
    } else if trimmed(stderr).len() == 0 {
        Err("ssh -G failed: "@ + ("exit code "@ + dec_int(code as int)))
    } else {
        Err("ssh -G failed: "@ + trimmed(stderr))
    }
}

pub fn ssh_resolve_host(ok: bool, code: i32, stdout: &str, stderr: &str) -> (r: Result<Json, String>)
    ensures
        crate::commands::json_result(r) == ssh_outcome(ok, code, stdout@, stderr@),
{
    if ok {
        return Ok(parse_ssh_g_output(stdout));
    }
    let mut e = "ssh -G failed: ".to_string();
    let detail = trim(stderr);
    if detail.as_str().is_empty() {
        let mut d = "exit code ".to_string();
        d.append(&decimal_int(code as i128));
        e.append(&d);
    } else {
        e.append(&detail);
    }
    Err(e)
}

} // verus!
