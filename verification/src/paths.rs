//! The parts of a path as text. `/` separates; where the caller says that the
//! platform is Windows, so does `\`, and a drive, a share or a device may come
//! first. Only `\` separates in a verbatim path of Windows.

use crate::text::{
    ascii_lower, chars_of, last_index_of, lower_letter, replace, replace_of, rfind_char, same,
    split, split_of, starts, starts_with, text_range, texts, to_ascii_lower, upper_letter,
};
use vstd::prelude::*;

verus! {

/// Whether a text starts with a drive, as in `C:`. Windows resolves such a name
/// against that drive and not against the directory it is put behind.
pub open spec fn names_drive(s: Seq<char>) -> bool {
    s.len() >= 2 && (lower_letter(s[0]) || upper_letter(s[0])) && s[1] == ':'
}

/// A name without the drives in front of it.
pub open spec fn off_drive(s: Seq<char>) -> Seq<char>
    decreases s.len(),
{
    if names_drive(s) {
        off_drive(s.skip(2))
    } else {
        s
    }
}

/// Dropping drives leaves the end of a text, which names none.
pub proof fn lemma_off_drive(s: Seq<char>)
    ensures
        off_drive(s).len() <= s.len(),
        off_drive(s) == s.skip(s.len() - off_drive(s).len()),
        !names_drive(off_drive(s)),
    decreases s.len(),
{
    if names_drive(s) {
        let t = s.skip(2);
        lemma_off_drive(t);
        let r = off_drive(t);
        assert(off_drive(s) == r);
        assert(r =~= s.skip(s.len() - r.len())) by {
            assert forall|i: int| 0 <= i < r.len() implies r[i] == s.skip(s.len() - r.len())[i] by {
                assert(t.skip(t.len() - r.len())[i] == t[t.len() - r.len() + i]);
            }
        }
    } else {
        assert(s.skip(0) =~= s);
    }
}

fn drive_at(v: &Vec<char>, i: usize) -> (r: bool)
    requires
        i <= v@.len(),
    ensures
        r == names_drive(v@.skip(i as int)),
{
    if v.len() - i < 2 {
        return false;
    }
    let c = v[i];
    (('a' <= c && c <= 'z') || ('A' <= c && c <= 'Z')) && v[i + 1] == ':'
}

pub fn starts_with_drive(s: &str) -> (r: bool)
    ensures
        r == names_drive(s@),
{
    let v = chars_of(s);
    assert(v@.skip(0) =~= s@);
    drive_at(&v, 0)
}

/// A name without the drives in front of it.
pub fn strip_drives(s: &str) -> (r: String)
    ensures
        r@ == off_drive(s@),
{
    let v = chars_of(s);
    let n: usize = v.len();
    let mut i: usize = 0;
    assert(v@.skip(0) =~= s@);
    while drive_at(&v, i)
        invariant
            i <= n,
            n == v@.len(),
            off_drive(s@) == off_drive(v@.skip(i as int)),
        decreases n - i,
    {
        assert(v@.skip(i as int).len() >= 2);
        assert(v@.skip(i as int).skip(2) =~= v@.skip(i + 2));
        i += 2;
    }
    assert(v@.subrange(i as int, v@.len() as int) =~= v@.skip(i as int));
    text_range(&v, i, n)
}

// ---------------------------------------------------------------------------
// Prefixes
// ---------------------------------------------------------------------------

/// A separator of a Windows path; a verbatim path knows only the backslash.
pub open spec fn separates(c: char, either: bool) -> bool {
    c == '\\' || (either && c == '/')
}

/// The end of the piece that starts at `from`.
pub open spec fn piece_end(p: Seq<char>, from: int, either: bool) -> int
    decreases p.len() - from,
{
    if from < 0 || from >= p.len() || separates(p[from], either) {
        from
    } else {
        piece_end(p, from + 1, either)
    }
}

/// The end of a server and its share, of which the share may be absent.
pub open spec fn share_end(p: Seq<char>, from: int, either: bool) -> int {
    let a = piece_end(p, from, either);
    let b = piece_end(p, a + 1, either);
    if a < p.len() && b > a + 1 {
        b
    } else {
        a
    }
}

/// Whether a path is verbatim, as in `\\?\C:\x`.
pub open spec fn verbatim(p: Seq<char>, windows: bool) -> bool {
    windows && starts(p, "\\\\?\\"@)
}

/// Whether a verbatim path names a drive and nothing more in front of its first
/// separator.
pub open spec fn verbatim_drive(p: Seq<char>) -> bool {
    names_drive(p.skip(4)) && (p.len() == 6 || separates(p[6], true))
}

/// Where the prefix of a path ends: a drive (`C:`), a share (`\\server\share`), a
/// device (`\\.\COM1`) or a verbatim form of these. Other platforms know none.
pub open spec fn prefix_end(p: Seq<char>, windows: bool) -> int {
    if !windows {
        0
    } else if verbatim(p, windows) {
        if starts(p, "\\\\?\\UNC\\"@) {
            share_end(p, 8, false)
        } else if verbatim_drive(p) {
            6
        } else {
            piece_end(p, 4, false)
        }
    } else if p.len() >= 2 && separates(p[0], true) && separates(p[1], true) {
        if p.len() >= 4 && p[2] == '.' && separates(p[3], true) {
            piece_end(p, 4, true)
        } else {
            let a = piece_end(p, 2, true);
            let b = share_end(p, 2, true);
            if a > 2 && b > a {
                b
            } else {
                0
            }
        }
    } else if names_drive(p) {
        2
    } else {
        0
    }
}

/// The prefix as it is compared: a drive without regard to case, and the
/// separators alike but in a verbatim one.
pub open spec fn prefix_text(p: Seq<char>, windows: bool) -> Seq<char> {
    let s = p.take(prefix_end(p, windows));
    if verbatim(p, windows) {
        if verbatim_drive(p) {
            ascii_lower(s)
        } else {
            s
        }
    } else if names_drive(p) {
        ascii_lower(s)
    } else {
        replace_of(s, '\\', "/"@)
    }
}

// ---------------------------------------------------------------------------
// Components
// ---------------------------------------------------------------------------

/// The path with every separator written as `/`.
pub open spec fn slashed(path: Seq<char>, windows: bool) -> Seq<char> {
    if windows {
        replace_of(path, '\\', "/"@)
    } else {
        path
    }
}

/// Whether a separator follows the prefix.
pub open spec fn root_written(p: Seq<char>, windows: bool) -> bool {
    let n = prefix_end(p, windows);
    n < p.len() && (p[n] == '/' || (windows && p[n] == '\\'))
}

/// Whether a path starts at a root. A share and a device have one of themselves.
pub open spec fn rooted(p: Seq<char>, windows: bool) -> bool {
    root_written(p, windows) || (prefix_end(p, windows) > 0 && !verbatim(p, windows)
        && !names_drive(p))
}

/// What follows the prefix and the root.
pub open spec fn body_of(p: Seq<char>, windows: bool) -> Seq<char> {
    p.skip(prefix_end(p, windows) + if root_written(p, windows) {
        1int
    } else {
        0
    })
}

/// The pieces that the separators part.
pub open spec fn body_pieces(p: Seq<char>, windows: bool) -> Seq<Seq<char>> {
    if verbatim(p, windows) {
        split_of(body_of(p, windows), '\\')
    } else {
        split_of(slashed(body_of(p, windows), windows), '/')
    }
}

/// A piece that counts: not empty, and not the current directory but where the
/// path is verbatim.
pub open spec fn names(piece: Seq<char>, verbatim: bool) -> bool {
    piece.len() > 0 && (verbatim || piece != "."@)
}

/// The names along a path.
pub open spec fn names_of(path: Seq<char>, windows: bool) -> Seq<Seq<char>> {
    let v = verbatim(path, windows);
    body_pieces(path, windows).filter(|p: Seq<char>| names(p, v))
}

/// Whether a path with neither prefix nor root starts with the current directory.
pub open spec fn leading_dot(p: Seq<char>, windows: bool) -> bool {
    prefix_end(p, windows) == 0 && !rooted(p, windows) && body_pieces(p, windows)[0] == "."@
}

/// The components of a path: its prefix, its root, a leading dot, and its names.
/// Two paths are the same one exactly when these are equal.
pub open spec fn components_of(p: Seq<char>, windows: bool) -> Seq<Seq<char>> {
    (if prefix_end(p, windows) > 0 {
        seq![prefix_text(p, windows)]
    } else {
        Seq::empty()
    }) + (if rooted(p, windows) {
        seq!["/"@]
    } else {
        Seq::empty()
    }) + (if leading_dot(p, windows) {
        seq!["."@]
    } else {
        Seq::empty()
    }) + names_of(p, windows)
}

/// The name of the file that a path ends in.
pub open spec fn file_name_of(path: Seq<char>, windows: bool) -> Option<Seq<char>> {
    let n = names_of(path, windows);
    if n.len() == 0 || n.last() == ".."@ || n.last() == "."@ {
        None
    } else {
        Some(n.last())
    }
}

/// What follows the last dot of a name, when something precedes the dot.
pub open spec fn extension_of(name: Seq<char>) -> Option<Seq<char>> {
    match last_index_of(name, '.') {
        Some(i) => if i > 0 && name != ".."@ {
            Some(name.skip(i + 1))
        } else {
            None
        },
        None => None,
    }
}

proof fn lemma_piece_end(p: Seq<char>, from: int, either: bool)
    requires
        0 <= from <= p.len(),
    ensures
        from <= piece_end(p, from, either) <= p.len(),
    decreases p.len() - from,
{
    if from < p.len() && !separates(p[from], either) {
        lemma_piece_end(p, from + 1, either);
    }
}

proof fn lemma_prefix_end(p: Seq<char>, windows: bool)
    ensures
        0 <= prefix_end(p, windows) <= p.len(),
{
    reveal_strlit("\\\\?\\");
    reveal_strlit("\\\\?\\UNC\\");
    if p.len() >= 2 {
        lemma_piece_end(p, 2, true);
        let a = piece_end(p, 2, true);
        if a < p.len() {
            lemma_piece_end(p, a + 1, true);
        }
    }
    if p.len() >= 4 {
        lemma_piece_end(p, 4, true);
        lemma_piece_end(p, 4, false);
    }
    if p.len() >= 8 {
        lemma_piece_end(p, 8, false);
        let a = piece_end(p, 8, false);
        if a < p.len() {
            lemma_piece_end(p, a + 1, false);
        }
    }
}

fn find_piece_end(v: &Vec<char>, from: usize, either: bool) -> (r: usize)
    requires
        from <= v@.len(),
    ensures
        r == piece_end(v@, from as int, either),
        from <= r <= v@.len(),
{
    let mut i: usize = from;
    while i < v.len() && v[i] != '\\' && !(either && v[i] == '/')
        invariant
            from <= i <= v@.len(),
            piece_end(v@, from as int, either) == piece_end(v@, i as int, either),
        decreases v@.len() - i,
    {
        i += 1;
    }
    i
}

fn find_share_end(v: &Vec<char>, from: usize, either: bool) -> (r: usize)
    requires
        from <= v@.len(),
    ensures
        r == share_end(v@, from as int, either),
        from <= r <= v@.len(),
{
    let a = find_piece_end(v, from, either);
    if a >= v.len() {
        return a;
    }
    let b = find_piece_end(v, a + 1, either);
    if b > a + 1 {
        b
    } else {
        a
    }
}

fn is_verbatim(path: &str, windows: bool) -> (r: bool)
    ensures
        r == verbatim(path@, windows),
{
    windows && starts_with(path, "\\\\?\\")
}

fn is_verbatim_drive(v: &Vec<char>) -> (r: bool)
    requires
        v@.len() >= 4,
    ensures
        r == verbatim_drive(v@),
{
    drive_at(v, 4) && (v.len() == 6 || v[6] == '\\' || v[6] == '/')
}

fn find_prefix_end(path: &str, v: &Vec<char>, windows: bool) -> (r: usize)
    requires
        v@ == path@,
    ensures
        r == prefix_end(path@, windows),
        r <= v@.len(),
{
    proof {
        lemma_prefix_end(path@, windows);
        reveal_strlit("\\\\?\\");
        reveal_strlit("\\\\?\\UNC\\");
    }
    if !windows {
        return 0;
    }
    if is_verbatim(path, windows) {
        return if starts_with(path, "\\\\?\\UNC\\") {
            find_share_end(v, 8, false)
        } else if is_verbatim_drive(v) {
            6
        } else {
            find_piece_end(v, 4, false)
        };
    }
    if v.len() >= 2 && (v[0] == '\\' || v[0] == '/') && (v[1] == '\\' || v[1] == '/') {
        if v.len() >= 4 && v[2] == '.' && (v[3] == '\\' || v[3] == '/') {
            return find_piece_end(v, 4, true);
        }
        let a = find_piece_end(v, 2, true);
        let b = find_share_end(v, 2, true);
        return if a > 2 && b > a {
            b
        } else {
            0
        };
    }
    assert(v@.skip(0) =~= v@);
    if drive_at(v, 0) {
        2
    } else {
        0
    }
}

/// The pieces after the prefix and the root.
fn path_pieces(path: &str, v: &Vec<char>, end: usize, windows: bool) -> (r: Vec<String>)
    requires
        v@ == path@,
        end == prefix_end(path@, windows),
        end <= v@.len(),
    ensures
        texts(r@) == body_pieces(path@, windows),
{
    let n: usize = v.len();
    let from: usize = if end < n && (v[end] == '/' || (windows && v[end] == '\\')) {
        end + 1
    } else {
        end
    };
    assert(v@.subrange(from as int, n as int) =~= body_of(path@, windows));
    let body = text_range(v, from, n);
    if is_verbatim(path, windows) {
        split(&body, '\\')
    } else if windows {
        split(&replace(&body, '\\', "/"), '/')
    } else {
        split(&body, '/')
    }
}

/// The pieces that count.
fn named_pieces(pieces: &Vec<String>, verbatim: bool) -> (r: Vec<String>)
    ensures
        texts(r@) == texts(pieces@).filter(|p: Seq<char>| names(p, verbatim)),
{
    let ghost ps = texts(pieces@);
    let ghost keep = |p: Seq<char>| names(p, verbatim);
    let mut out: Vec<String> = Vec::new();
    let mut i: usize = 0;
    assert(ps.take(0).filter(keep) =~= Seq::<Seq<char>>::empty()) by {
        reveal(Seq::filter);
    }
    assert(texts(out@) =~= Seq::<Seq<char>>::empty());
    while i < pieces.len()
        invariant
            i <= pieces@.len(),
            texts(pieces@) == ps,
            keep == (|p: Seq<char>| names(p, verbatim)),
            texts(out@) == ps.take(i as int).filter(keep),
        decreases pieces@.len() - i,
    {
        assert(ps.take(i + 1).drop_last() == ps.take(i as int));
        assert(ps.take(i + 1).last() == pieces@[i as int]@) by {
            assert(texts(pieces@)[i as int] == pieces@[i as int]@);
        }
        reveal(Seq::filter);
        let piece = &pieces[i];
        if !piece.as_str().is_empty() && (verbatim || !same(piece, ".")) {
            let ghost before = texts(out@);
            let name = piece.clone();
            out.push(name);
            assert(texts(out@) == before.push(name@));
        }
        i += 1;
    }
    assert(ps.take(i as int) == ps);
    out
}

pub fn path_names(path: &str, windows: bool) -> (r: Vec<String>)
    ensures
        texts(r@) == names_of(path@, windows),
{
    let v = chars_of(path);
    let end = find_prefix_end(path, &v, windows);
    let pieces = path_pieces(path, &v, end, windows);
    named_pieces(&pieces, is_verbatim(path, windows))
}

fn written_prefix(path: &str, v: &Vec<char>, end: usize, windows: bool) -> (r: String)
    requires
        v@ == path@,
        end == prefix_end(path@, windows),
        end <= v@.len(),
        windows,
    ensures
        r@ == prefix_text(path@, windows),
{
    let s = text_range(v, 0, end);
    assert(s@ =~= path@.take(end as int));
    proof {
        reveal_strlit("\\\\?\\");
    }
    if is_verbatim(path, windows) {
        if is_verbatim_drive(v) {
            to_ascii_lower(&s)
        } else {
            s
        }
    } else if starts_with_drive(path) {
        to_ascii_lower(&s)
    } else {
        replace(&s, '\\', "/")
    }
}

/// The components of a path.
pub fn components(path: &str, windows: bool) -> (r: Vec<String>)
    ensures
        texts(r@) == components_of(path@, windows),
{
    let v = chars_of(path);
    let n: usize = v.len();
    let end = find_prefix_end(path, &v, windows);
    let verb = is_verbatim(path, windows);
    let pieces = path_pieces(path, &v, end, windows);
    let tail = named_pieces(&pieces, verb);
    let mut out: Vec<String> = Vec::new();
    assert(texts(out@) =~= Seq::<Seq<char>>::empty());
    if end > 0 {
        let prefix = written_prefix(path, &v, end, windows);
        out.push(prefix);
        assert(texts(out@) =~= seq![prefix@]);
    }
    let ghost one = texts(out@);
    let written = end < n && (v[end] == '/' || (windows && v[end] == '\\'));
    let root = written || (end > 0 && !verb && !starts_with_drive(path));
    if root {
        let slash = "/".to_string();
        out.push(slash);
        assert(texts(out@) =~= one + seq!["/"@]);
    } else {
        assert(one + Seq::<Seq<char>>::empty() =~= one);
    }
    let ghost two = texts(out@);
    proof {
        lemma_split_pieces(path@, windows);
        assert(texts(pieces@)[0] == pieces@[0]@);
    }
    if end == 0 && !root && same(&pieces[0], ".") {
        let dot = ".".to_string();
        out.push(dot);
        assert(texts(out@) =~= two + seq!["."@]);
    } else {
        assert(two + Seq::<Seq<char>>::empty() =~= two);
    }
    let ghost head = texts(out@);
    let mut i: usize = 0;
    assert(head + texts(tail@).take(0) =~= head);
    while i < tail.len()
        invariant
            i <= tail@.len(),
            texts(out@) == head + texts(tail@).take(i as int),
        decreases tail@.len() - i,
    {
        let ghost before = texts(out@);
        let name = tail[i].clone();
        assert(texts(tail@)[i as int] == name@);
        out.push(name);
        assert(texts(out@) =~= before.push(name@));
        assert(head + texts(tail@).take(i + 1) =~= before.push(name@));
        i += 1;
    }
    assert(texts(tail@).take(i as int) =~= texts(tail@));
    out
}

proof fn lemma_split_pieces(p: Seq<char>, windows: bool)
    ensures
        body_pieces(p, windows).len() >= 1,
{
    lemma_split_some(body_of(p, windows), '\\');
    lemma_split_some(slashed(body_of(p, windows), windows), '/');
}

proof fn lemma_split_some(s: Seq<char>, c: char)
    ensures
        split_of(s, c).len() >= 1,
    decreases s.len(),
{
    if s.len() > 0 {
        lemma_split_some(s.drop_last(), c);
    }
}

/// Whether two lists of components are equal.
pub fn same_components(a: &Vec<String>, b: &Vec<String>) -> (r: bool)
    ensures
        r == (texts(a@) == texts(b@)),
{
    assert(texts(a@).len() == a@.len() && texts(b@).len() == b@.len());
    if a.len() != b.len() {
        return false;
    }
    let mut i: usize = 0;
    while i < a.len()
        invariant
            i <= a@.len(),
            a@.len() == b@.len(),
            forall|j: int| 0 <= j < i ==> #[trigger] texts(a@)[j] == texts(b@)[j],
        decreases a@.len() - i,
    {
        assert(texts(a@)[i as int] == a@[i as int]@);
        assert(texts(b@)[i as int] == b@[i as int]@);
        if !same(&a[i], &b[i]) {
            return false;
        }
        i += 1;
    }
    assert(texts(a@) =~= texts(b@));
    true
}

pub fn file_name(path: &str, windows: bool) -> (r: Option<String>)
    ensures
        crate::text::opt_text(r) == file_name_of(path@, windows),
{
    let n = path_names(path, windows);
    let ghost ns = names_of(path@, windows);
    assert(n@.len() == ns.len());
    if n.len() == 0 {
        return None;
    }
    let last = n[n.len() - 1].clone();
    assert(last@ == ns.last()) by {
        assert(texts(n@)[n@.len() - 1] == n@[n@.len() - 1]@);
    }
    if same(&last, "..") || same(&last, ".") {
        None
    } else {
        Some(last)
    }
}

pub fn extension(name: &str) -> (r: Option<String>)
    ensures
        crate::text::opt_text(r) == extension_of(name@),
{
    let v = chars_of(name);
    match rfind_char(&v, '.') {
        Some(i) => if i > 0 && !same(name, "..") {
            let n: usize = v.len();
            assert(name@.skip(i + 1) =~= v@.subrange(i + 1, n as int));
            Some(text_range(&v, i + 1, n))
        } else {
            None
        },
        None => None,
    }
}

} // verus!
