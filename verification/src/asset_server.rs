//! The loopback server of the renderer's files: which requests it answers, and
//! with which file.

use crate::escape::{percent_decode, percent_decoded};
use crate::outside::{mime_for_ext, mime_of};
use crate::paths::{extension, extension_of, names_drive, starts_with_drive};
use crate::text::{
    chars_of, copy_opt, copy_texts, find_char, lemma_index_from, opt_text, or_empty, same, split,
    split_of, text_range, texts,
};
use vstd::prelude::*;

verus! {

/// The renderer's base address, once the server has started.
pub struct AssetBase {
    base: Option<String>,
}

impl View for AssetBase {
    type V = Option<Seq<char>>;

    closed spec fn view(&self) -> Option<Seq<char>> {
        opt_text(self.base)
    }
}

impl AssetBase {
    pub fn new() -> (r: AssetBase)
        ensures
            r@ is None,
    {
        AssetBase { base: None }
    }

    pub fn set(&mut self, url: String)
        ensures
            final(self)@ == Some(url@),
    {
        self.base = Some(url);
    }

    pub fn get(&self) -> (r: Option<String>)
        ensures
            opt_text(r) == self@,
    {
        copy_opt(&self.base)
    }
}

/// The address that every window loads: the development server in a debug
/// build, else the loopback server, else the asset protocol.
pub open spec fn base_url_of(
    debug: bool,
    dev_url: Option<Seq<char>>,
    served: Option<Seq<char>>,
) -> Seq<char> {
    if debug {
        match dev_url {
            Some(u) => u,
            None => "http://localhost:5174"@,
        }
    } else {
        match served {
            Some(u) => u,
            None => "http://tauri.localhost"@,
        }
    }
}

pub fn base_url(debug: bool, dev_url: &Option<String>, served: &Option<String>) -> (r: String)
    ensures
        r@ == base_url_of(debug, opt_text(*dev_url), opt_text(*served)),
{
    if debug {
        match dev_url {
            Some(u) => u.clone(),
            None => "http://localhost:5174".to_string(),
        }
    } else {
        match served {
            Some(u) => u.clone(),
            None => "http://tauri.localhost".to_string(),
        }
    }
}

/// A path segment that names nothing.
pub open spec fn blank_segment(s: Seq<char>) -> bool {
    s.len() == 0 || s == "."@
}

/// A path segment that could lead out of the root; a drive does so on Windows.
pub open spec fn unsafe_segment(s: Seq<char>, windows: bool) -> bool {
    s == ".."@ || s.contains('\\') || s.contains('\0') || (windows && names_drive(s))
}

/// The segments below the root; `None` when any of them is unsafe.
pub open spec fn safe_segments(p: Seq<Seq<char>>, windows: bool) -> Option<Seq<Seq<char>>>
    decreases p.len(),
{
    if p.len() == 0 {
        Some(Seq::empty())
    } else {
        match safe_segments(p.drop_last(), windows) {
            None => None,
            Some(v) => if blank_segment(p.last()) {
                Some(v)
            } else if unsafe_segment(p.last(), windows) {
                None
            } else {
                Some(v.push(p.last()))
            },
        }
    }
}

/// The path below the root that a URL path stands for.
pub open spec fn sanitized(raw: Seq<char>, windows: bool) -> Option<Seq<Seq<char>>> {
    match percent_decoded(raw) {
        Some(d) => safe_segments(split_of(d, '/'), windows),
        None => None,
    }
}

pub open spec fn opt_texts(o: Option<Vec<String>>) -> Option<Seq<Seq<char>>> {
    match o {
        Some(v) => Some(texts(v@)),
        None => None,
    }
}

proof fn lemma_safe_segments_fail(p: Seq<Seq<char>>, i: int, windows: bool)
    requires
        0 <= i <= p.len(),
        safe_segments(p.take(i), windows) is None,
    ensures
        safe_segments(p, windows) is None,
    decreases p.len() - i,
{
    if i < p.len() {
        assert(p.take(i + 1).drop_last() =~= p.take(i));
        lemma_safe_segments_fail(p, i + 1, windows);
    } else {
        assert(p.take(i) =~= p);
    }
}

fn holds_char(s: &str, c: char) -> (r: bool)
    ensures
        r == s@.contains(c),
{
    let v = chars_of(s);
    proof {
        lemma_index_from(s@, c, 0);
    }
    match find_char(&v, c) {
        Some(i) => {
            assert(s@[i as int] == c);
            true
        },
        None => false,
    }
}

/// Maps the path of a URL to segments below the root. Decoding comes first, so
/// that an encoded `..` or separator is seen.
pub fn sanitize_path(raw: &str, windows: bool) -> (r: Option<Vec<String>>)
    ensures
        opt_texts(r) == sanitized(raw@, windows),
{
    let decoded = match percent_decode(raw) {
        Some(d) => d,
        None => {
            return None;
        },
    };
    let pieces = split(&decoded, '/');
    let ghost ps = split_of(decoded@, '/');
    let mut out: Vec<String> = Vec::new();
    assert(texts(out@) =~= Seq::<Seq<char>>::empty());
    assert(ps.take(0) =~= Seq::<Seq<char>>::empty());
    let mut i: usize = 0;
    while i < pieces.len()
        invariant
            i <= pieces@.len(),
            texts(pieces@) == ps,
            sanitized(raw@, windows) == safe_segments(ps, windows),
            safe_segments(ps.take(i as int), windows) == Some(texts(out@)),
        decreases pieces@.len() - i,
    {
        assert(ps.take(i + 1).drop_last() =~= ps.take(i as int));
        assert(ps.take(i + 1).last() == pieces@[i as int]@) by {
            assert(texts(pieces@)[i as int] == pieces@[i as int]@);
        }
        let p = &pieces[i];
        if p.as_str().is_empty() || same(p, ".") {
        } else if same(p, "..") || holds_char(p, '\\') || holds_char(p, '\0')
            || (windows && starts_with_drive(p)) {
            proof {
                lemma_safe_segments_fail(ps, i + 1, windows);
            }
            return None;
        } else {
            let ghost before = texts(out@);
            let name = p.clone();
            out.push(name);
            assert(texts(out@) =~= before.push(name@));
        }
        i += 1;
    }
    assert(ps.take(i as int) =~= ps);
    Some(out)
}

proof fn lemma_safe_segments_are_safe(p: Seq<Seq<char>>, windows: bool)
    ensures
        match safe_segments(p, windows) {
            Some(v) => forall|i: int|
                #![trigger v[i]]
                0 <= i < v.len() ==> !blank_segment(v[i]) && !unsafe_segment(v[i], windows) && p.contains(
                    v[i],
                ),
            None => true,
        },
    decreases p.len(),
{
    if p.len() > 0 {
        lemma_safe_segments_are_safe(p.drop_last(), windows);
        if let Some(v) = safe_segments(p, windows) {
            let w = safe_segments(p.drop_last(), windows)->0;
            assert forall|i: int| #![trigger v[i]] 0 <= i < v.len() implies !blank_segment(v[i])
                && !unsafe_segment(v[i], windows) && p.contains(v[i]) by {
                if i < w.len() {
                    assert(v[i] == w[i]);
                    let k = choose|k: int| 0 <= k < p.drop_last().len() && p.drop_last()[k] == w[i];
                    assert(p[k] == v[i]);
                } else {
                    assert(p[p.len() - 1] == v[i]);
                }
            }
        }
    }
}

proof fn lemma_split_pieces_clean(s: Seq<char>, c: char)
    ensures
        forall|i: int|
            #![trigger split_of(s, c)[i]]
            0 <= i < split_of(s, c).len() ==> !split_of(s, c)[i].contains(c),
        split_of(s, c).len() >= 1,
    decreases s.len(),
{
    let p = split_of(s, c);
    if s.len() > 0 {
        lemma_split_pieces_clean(s.drop_last(), c);
        let r = split_of(s.drop_last(), c);
        assert forall|i: int| #![trigger p[i]] 0 <= i < p.len() implies !p[i].contains(c) by {
            if i < r.len() - 1 {
                assert(p[i] == r[i]);
            } else if s.last() == c {
                if i < r.len() {
                    assert(p[i] == r[i]);
                }
            } else {
                assert(p[i] =~= r.last().push(s.last()));
                assert(!r[r.len() - 1].contains(c));
                if p[i].contains(c) {
                    let k = choose|k: int| 0 <= k < p[i].len() && p[i][k] == c;
                    assert(r.last()[k] == c);
                }
            }
        }
    }
}

/// No file outside the root is ever named: every segment is a plain name, with
/// no separator, no `..`, no NUL and, on Windows, no drive in front.
pub proof fn law_no_path_leaves_the_root(raw: Seq<char>, windows: bool)
    ensures
        match sanitized(raw, windows) {
            Some(v) => forall|i: int|
                #![trigger v[i]]
                0 <= i < v.len() ==> {
                    &&& v[i].len() > 0
                    &&& v[i] != "."@ && v[i] != ".."@
                    &&& !v[i].contains('/') && !v[i].contains('\\') && !v[i].contains('\0')
                    &&& windows ==> !names_drive(v[i])
                },
            None => true,
        },
{
    if let Some(d) = percent_decoded(raw) {
        let p = split_of(d, '/');
        lemma_safe_segments_are_safe(p, windows);
        lemma_split_pieces_clean(d, '/');
        if let Some(v) = safe_segments(p, windows) {
            assert forall|i: int| #![trigger v[i]] 0 <= i < v.len() implies !v[i].contains('/') by {
                assert(p.contains(v[i]));
                let k = choose|k: int| 0 <= k < p.len() && p[k] == v[i];
                assert(!split_of(d, '/')[k].contains('/'));
            }
        }
    }
}

/// The verbs that the server tells apart.
#[derive(Clone, Copy, Debug, PartialEq, Eq, Structural)]
pub enum Method {
    Get,
    Head,
    Other,
}

/// The part of a request target before its query and fragment.
pub open spec fn path_part(url: Seq<char>) -> Seq<char>
    decreases url.len(),
{
    if url.len() == 0 || url[0] == '?' || url[0] == '#' {
        Seq::empty()
    } else {
        seq![url[0]] + path_part(url.drop_first())
    }
}

fn before_query(url: &str) -> (r: String)
    ensures
        r@ == path_part(url@),
{
    let v = chars_of(url);
    let mut n: usize = 0;
    assert(url@.skip(0) =~= url@);
    assert(url@.take(0) + path_part(url@.skip(0)) =~= path_part(url@));
    while n < v.len() && v[n] != '?' && v[n] != '#'
        invariant
            n <= v@.len(),
            v@ == url@,
            path_part(url@) == url@.take(n as int) + path_part(url@.skip(n as int)),
        decreases v@.len() - n,
    {
        let ghost rest = url@.skip(n as int);
        assert(rest[0] == v@[n as int]);
        assert(rest.drop_first() =~= url@.skip(n + 1));
        assert(url@.take(n as int) + (seq![rest[0]] + path_part(rest.drop_first())) =~= url@.take(
            n + 1,
        ) + path_part(url@.skip(n + 1)));
        n += 1;
    }
    let ghost rest = url@.skip(n as int);
    assert(n < v@.len() ==> rest[0] == v@[n as int]);
    assert(path_part(rest) =~= Seq::<char>::empty());
    assert(v@.subrange(0, n as int) =~= url@.take(n as int) + path_part(rest));
    text_range(&v, 0, n)
}

/// What a request leads to.
pub enum AssetStep {
    /// An empty answer with a status.
    Status(u16),
    /// A file to look for below the root.
    Look(Vec<String>),
}

pub open spec fn step_view(s: AssetStep) -> Result<Seq<Seq<char>>, u16> {
    match s {
        AssetStep::Status(n) => Err(n),
        AssetStep::Look(v) => Ok(texts(v@)),
    }
}

/// Only reads are answered, and only for paths below the root.
pub open spec fn request_of(method: Method, url: Seq<char>, windows: bool) -> Result<
    Seq<Seq<char>>,
    u16,
> {
    if method == Method::Other {
        Err(405u16)
    } else {
        match sanitized(path_part(url), windows) {
            None => Err(403u16),
            Some(v) => Ok(v),
        }
    }
}

pub fn handle_request(method: Method, raw_url: &str, windows: bool) -> (r: AssetStep)
    ensures
        step_view(r) == request_of(method, raw_url@, windows),
{
    match method {
        Method::Other => AssetStep::Status(405),
        _ => match sanitize_path(&before_query(raw_url), windows) {
            None => AssetStep::Status(403),
            Some(v) => AssetStep::Look(v),
        },
    }
}

pub open spec fn has_extension(rel: Seq<Seq<char>>) -> bool {
    rel.len() > 0 && extension_of(rel.last()) is Some
}

/// The file that answers a path: the index of a directory, the file itself, or
/// the root index for a client-side route, which has no extension. `is_dir`
/// says whether the path is a directory, `is_file` whether the file chosen so
/// far exists, `index_is_file` whether the root has an index.
pub open spec fn chosen_file(
    rel: Seq<Seq<char>>,
    is_dir: bool,
    is_file: bool,
    index_is_file: bool,
) -> Option<Seq<Seq<char>>> {
    let first = if is_dir {
        rel.push("index.html"@)
    } else {
        rel
    };
    if is_file {
        Some(first)
    } else if !has_extension(rel) && index_is_file {
        Some(seq!["index.html"@])
    } else {
        None
    }
}

/// The first file to look for.
pub fn first_candidate(rel: &Vec<String>, is_dir: bool) -> (r: Vec<String>)
    ensures
        texts(r@) == if is_dir {
            texts(rel@).push("index.html"@)
        } else {
            texts(rel@)
        },
{
    let mut out = copy_texts(rel);
    if is_dir {
        let ghost before = texts(out@);
        out.push("index.html".to_string());
        assert(texts(out@) =~= before.push("index.html"@));
    }
    out
}

/// Chooses the file that answers; `None` means not found.
pub fn choose_file(
    rel: &Vec<String>,
    is_dir: bool,
    is_file: bool,
    index_is_file: bool,
) -> (r: Option<Vec<String>>)
    ensures
        opt_texts(r) == chosen_file(texts(rel@), is_dir, is_file, index_is_file),
{
    let first = first_candidate(rel, is_dir);
    if is_file {
        return Some(first);
    }
    let has_ext = if rel.len() == 0 {
        false
    } else {
        assert(texts(rel@).last() == rel@[rel@.len() - 1]@);
        extension(&rel[rel.len() - 1]).is_some()
    };
    if !has_ext && index_is_file {
        let mut out: Vec<String> = Vec::new();
        out.push("index.html".to_string());
        assert(texts(out@) =~= seq!["index.html"@]);
        Some(out)
    } else {
        None
    }
}

/// The content type of a file, with a charset for the textual ones.
pub open spec fn content_type_of(base: Seq<char>, is_text: bool) -> Seq<char> {
    if is_text || base == "application/javascript"@ || base == "application/json"@ || base
        == "image/svg+xml"@ {
        base + "; charset=utf-8"@
    } else {
        base
    }
}

pub fn content_type_with_charset(base: &str, is_text: bool) -> (r: String)
    ensures
        r@ == content_type_of(base@, is_text),
{
    let mut out = base.to_string();
    if is_text || same(base, "application/javascript") || same(base, "application/json") || same(
        base,
        "image/svg+xml",
    ) {
        out.append("; charset=utf-8");
    }
    out
}

/// The content type that a file name stands for.
pub open spec fn served_type(name: Seq<char>) -> Seq<char> {
    let (base, top) = mime_of(or_empty(extension_of(name)));
    content_type_of(base, top == "text"@)
}

pub fn content_type_for(name: &str) -> (r: String)
    ensures
        r@ == served_type(name@),
{
    let ext = match extension(name) {
        Some(e) => e,
        None => String::new(),
    };
    assert(ext@ =~= or_empty(extension_of(name@)));
    let (base, top) = mime_for_ext(&ext);
    content_type_with_charset(&base, same(&top, "text"))
}

} // verus!
