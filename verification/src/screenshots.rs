//! The managed screenshot directories, and the exclude file of a repository.

use crate::outside::{lowercase, to_lowercase};
use crate::paths::{components, components_of};
use crate::text::{
    after_prefix, ends, ends_with, lemma_split_append, lemma_split_one, lines, lines_of, opt_text,
    replace, replace_of, same, split_of, strip_prefix, texts, trim, trim_end_char, trim_end_of,
    trimmed, without_cr, Class,
};
use vstd::prelude::*;

verus! {

// ---------------------------------------------------------------------------
// Managed directories
// ---------------------------------------------------------------------------

/// The components of a path in which both slashes separate, wherever it is read.
pub open spec fn parts_of(path: Seq<char>, windows: bool) -> Seq<Seq<char>> {
    components_of(
        if windows {
            path
        } else {
            replace_of(path, '\\', "/"@)
        },
        windows,
    )
}

fn parts(path: &str, windows: bool) -> (r: Vec<String>)
    ensures
        texts(r@) == parts_of(path@, windows),
{
    if windows {
        components(path, windows)
    } else {
        components(&replace(path, '\\', "/"), windows)
    }
}

/// A path that ends in `.hermes/screenshots`, in any case, below something.
pub open spec fn project_shape(path: Seq<char>, windows: bool) -> bool {
    let c = parts_of(path, windows);
    c.len() >= 3 && lowercase(c[c.len() - 2]) == ".hermes"@ && lowercase(c[c.len() - 1])
        == "screenshots"@
}

pub fn has_project_screenshots_suffix(path: &str, windows: bool) -> (r: bool)
    ensures
        r == project_shape(path@, windows),
{
    let c = parts(path, windows);
    let ghost cs = parts_of(path@, windows);
    let n: usize = c.len();
    assert(cs.len() == n);
    if n < 3 {
        return false;
    }
    assert(c@[n - 2]@ == cs[n - 2] && c@[n - 1]@ == cs[n - 1]) by {
        assert(texts(c@)[n - 2] == c@[n - 2]@);
        assert(texts(c@)[n - 1] == c@[n - 1]@);
    }
    same(&to_lowercase(&c[n - 2]), ".hermes") && same(&to_lowercase(&c[n - 1]), "screenshots")
}

/// What two paths are compared by: their components, without regard to case and
/// to how they are separated.
pub open spec fn comparable(path: Seq<char>, windows: bool) -> Seq<Seq<char>> {
    components_of(
        trim_end_of(replace_of(path, '\\', "/"@), Class::One('/')),
        windows,
    ).map_values(|c: Seq<char>| lowercase(c))
}

fn same_path(a: &str, b: &str, windows: bool) -> (r: bool)
    ensures
        r == (comparable(a@, windows) == comparable(b@, windows)),
{
    let x = components(&trim_end_char(&replace(a, '\\', "/"), '/'), windows);
    let y = components(&trim_end_char(&replace(b, '\\', "/"), '/'), windows);
    let ghost xs = comparable(a@, windows);
    let ghost ys = comparable(b@, windows);
    assert(xs.len() == texts(x@).len() && ys.len() == texts(y@).len());
    if x.len() != y.len() {
        return false;
    }
    let mut i: usize = 0;
    while i < x.len()
        invariant
            i <= x@.len(),
            x@.len() == y@.len(),
            xs == texts(x@).map_values(|c: Seq<char>| lowercase(c)),
            ys == texts(y@).map_values(|c: Seq<char>| lowercase(c)),
            xs == comparable(a@, windows),
            ys == comparable(b@, windows),
            forall|j: int| 0 <= j < i ==> #[trigger] xs[j] == ys[j],
        decreases x@.len() - i,
    {
        assert(texts(x@)[i as int] == x@[i as int]@);
        assert(texts(y@)[i as int] == y@[i as int]@);
        if !same(&to_lowercase(&x[i]), &to_lowercase(&y[i])) {
            assert(xs[i as int] != ys[i as int]);
            return false;
        }
        i += 1;
    }
    assert(xs =~= ys);
    true
}

/// The only directories that are ever emptied.
pub open spec fn managed(app_dir: Option<Seq<char>>, path: Seq<char>, windows: bool) -> bool {
    (app_dir is Some && comparable(path, windows) == comparable(app_dir->0, windows))
        || project_shape(path, windows)
}

pub fn is_managed_screenshot_dir(app_dir: &Option<String>, path: &str, windows: bool) -> (r: bool)
    ensures
        r == managed(opt_text(*app_dir), path@, windows),
{
    if let Some(dir) = app_dir {
        if same_path(path, dir, windows) {
            return true;
        }
    }
    has_project_screenshots_suffix(path, windows)
}

/// Refuses to empty a directory that is not managed.
pub open spec fn clear_guard(app_dir: Option<Seq<char>>, path: Seq<char>, windows: bool) -> Result<
    (),
    Seq<char>,
> {
    if managed(app_dir, path, windows) {
        Ok(())
    } else {
        Err("refusing to clean unmanaged path: "@ + path)
    }
}

pub fn check_clear(app_dir: &Option<String>, path: &str, windows: bool) -> (r: Result<
    (),
    String,
>)
    ensures
        crate::text::unit_result(r) == clear_guard(opt_text(*app_dir), path@, windows),
{
    if is_managed_screenshot_dir(app_dir, path, windows) {
        Ok(())
    } else {
        let mut e = "refusing to clean unmanaged path: ".to_string();
        e.append(path);
        Err(e)
    }
}

// ---------------------------------------------------------------------------
// Sizes
// ---------------------------------------------------------------------------

/// One entry of a directory.
#[derive(Clone, Copy)]
pub struct EntrySize {
    pub is_file: bool,
    pub len: u64,
}

pub open spec fn file_count(v: Seq<EntrySize>) -> nat
    decreases v.len(),
{
    if v.len() == 0 {
        0
    } else {
        file_count(v.drop_last()) + if v.last().is_file {
            1nat
        } else {
            0nat
        }
    }
}

pub open spec fn file_bytes(v: Seq<EntrySize>) -> nat
    decreases v.len(),
{
    if v.len() == 0 {
        0
    } else {
        file_bytes(v.drop_last()) + if v.last().is_file {
            v.last().len as nat
        } else {
            0nat
        }
    }
}

proof fn lemma_file_bytes_monotonic(v: Seq<EntrySize>, i: int)
    requires
        0 <= i <= v.len(),
    ensures
        file_bytes(v.take(i)) <= file_bytes(v),
        file_count(v.take(i)) <= i,
    decreases v.len() - i,
{
    if i < v.len() {
        lemma_file_bytes_monotonic(v, i + 1);
        assert(v.take(i + 1).drop_last() =~= v.take(i));
    } else {
        assert(v.take(i) =~= v);
        lemma_file_count_bound(v);
    }
    lemma_file_count_bound(v.take(i));
}

proof fn lemma_file_count_bound(v: Seq<EntrySize>)
    ensures
        file_count(v) <= v.len(),
    decreases v.len(),
{
    if v.len() > 0 {
        lemma_file_count_bound(v.drop_last());
    }
}

/// How many files there are, and their bytes together. The sum must fit.
pub fn tally(v: &Vec<EntrySize>) -> (r: (u64, u64))
    requires
        file_bytes(v@) <= u64::MAX,
    ensures
        r.0 == file_count(v@),
        r.1 == file_bytes(v@),
{
    let mut files: u64 = 0;
    let mut bytes: u64 = 0;
    let n: usize = v.len();
    let mut i: usize = 0;
    while i < n
        invariant
            i <= n,
            n == v@.len(),
            file_bytes(v@) <= u64::MAX,
            files <= i,
            files == file_count(v@.take(i as int)),
            bytes == file_bytes(v@.take(i as int)),
        decreases n - i,
    {
        assert(v@.take(i + 1).drop_last() =~= v@.take(i as int));
        proof {
            lemma_file_bytes_monotonic(v@, i + 1);
        }
        if v[i].is_file {
            files += 1;
            bytes += v[i].len;
        }
        i += 1;
    }
    assert(v@.take(i as int) =~= v@);
    (files, bytes)
}

pub struct ScreenshotDirStat {
    pub kind: String,
    pub path: String,
    pub exists: bool,
    pub files: u64,
    pub bytes: u64,
}

/// The size of one managed directory; `None` for one that cannot be read.
pub fn dir_stat(kind: &str, path: String, entries: &Option<Vec<EntrySize>>) -> (r:
    ScreenshotDirStat)
    requires
        match *entries {
            Some(v) => file_bytes(v@) <= u64::MAX,
            None => true,
        },
    ensures
        r.kind@ == kind@,
        r.path == path,
        match *entries {
            Some(v) => r.exists && r.files == file_count(v@) && r.bytes == file_bytes(v@),
            None => !r.exists && r.files == 0 && r.bytes == 0,
        },
{
    match entries {
        Some(v) => {
            let (files, bytes) = tally(v);
            ScreenshotDirStat { kind: kind.to_string(), path, exists: true, files, bytes }
        },
        None => ScreenshotDirStat {
            kind: kind.to_string(),
            path,
            exists: false,
            files: 0,
            bytes: 0,
        },
    }
}

pub struct ScreenshotCleanResult {
    pub path: String,
    pub removed_files: u64,
    pub freed_bytes: u64,
}

/// What emptying a directory of these entries removes.
pub fn clean_result(path: String, entries: &Vec<EntrySize>) -> (r: ScreenshotCleanResult)
    requires
        file_bytes(entries@) <= u64::MAX,
    ensures
        r.path == path,
        r.removed_files == file_count(entries@),
        r.freed_bytes == file_bytes(entries@),
{
    let (files, bytes) = tally(entries);
    ScreenshotCleanResult { path, removed_files: files, freed_bytes: bytes }
}

/// The project whose screenshots are shown beside the application's, when one
/// is open.
pub open spec fn shown_project(project_dir: Option<Seq<char>>) -> Option<Seq<char>> {
    match project_dir {
        Some(p) => if trimmed(p).len() > 0 {
            Some(p)
        } else {
            None
        },
        None => None,
    }
}

pub fn project_row(project_dir: &Option<String>) -> (r: Option<String>)
    ensures
        opt_text(r) == shown_project(opt_text(*project_dir)),
{
    match project_dir {
        Some(p) => {
            let t = trim(p);
            if t.as_str().is_empty() {
                None
            } else {
                Some(p.clone())
            }
        },
        None => None,
    }
}

// ---------------------------------------------------------------------------
// The exclude file
// ---------------------------------------------------------------------------

pub open spec fn listed(existing: Seq<char>, entry: Seq<char>) -> bool {
    exists|i: int|
        0 <= i < lines_of(existing).len() && trimmed(#[trigger] lines_of(existing)[i]) == entry
}

/// The content with the entry on a line of its own at the end; `None` when a
/// line already holds it.
pub open spec fn excluded(existing: Seq<char>, entry: Seq<char>) -> Option<Seq<char>> {
    if listed(existing, entry) {
        None
    } else if existing.len() > 0 && existing.last() != '\n' {
        Some(existing.push('\n') + entry + seq!['\n'])
    } else {
        Some(existing + entry + seq!['\n'])
    }
}

pub fn exclude_entry(existing: &str, entry: &str) -> (r: Option<String>)
    ensures
        opt_text(r) == excluded(existing@, entry@),
{
    let all = lines(existing);
    let ghost l = lines_of(existing@);
    assert(l.len() == all@.len());
    let mut i: usize = 0;
    while i < all.len()
        invariant
            i <= all@.len(),
            texts(all@) == l,
            l == lines_of(existing@),
            forall|j: int| 0 <= j < i ==> trimmed(#[trigger] l[j]) != entry@,
        decreases all@.len() - i,
    {
        assert(texts(all@)[i as int] == all@[i as int]@);
        if same(&trim(&all[i]), entry) {
            assert(trimmed(lines_of(existing@)[i as int]) == entry@);
            return None;
        }
        i += 1;
    }
    let mut next = existing.to_string();
    let bare = existing.is_empty() || ends_with(existing, "\n");
    proof {
        reveal_strlit("\n");
        if existing@.len() > 0 {
            assert(existing@.skip(existing@.len() - 1)[0] == existing@.last());
            if existing@.last() == '\n' {
                assert(existing@.skip(existing@.len() - 1) =~= "\n"@);
            } else if ends(existing@, "\n"@) {
                assert("\n"@[0] == '\n');
            }
        }
    }
    if !bare {
        next.push('\n');
    }
    next.append(entry);
    next.push('\n');
    assert(next@ =~= (if existing@.len() > 0 && existing@.last() != '\n' {
        existing@.push('\n') + entry@ + seq!['\n']
    } else {
        existing@ + entry@ + seq!['\n']
    }));
    Some(next)
}

/// An entry is appended at most once: what was written already lists it. The
/// entry is a line without white space at its ends.
pub proof fn law_exclude_is_idempotent(existing: Seq<char>, entry: Seq<char>)
    requires
        trimmed(entry) == entry,
        !entry.contains('\n'),
    ensures
        match excluded(existing, entry) {
            Some(next) => excluded(next, entry) is None,
            None => true,
        },
{
    if let Some(next) = excluded(existing, entry) {
        let empty = Seq::<char>::empty();
        assert forall|i: int| 0 <= i < entry.len() implies #[trigger] entry[i] != '\n' by {
            assert(entry.contains(entry[i]));
        }
        crate::text::lemma_trim_ends(entry, Class::White);
        assert(without_cr(entry) == entry);
        let base = if existing.len() == 0 || existing.last() != '\n' {
            existing
        } else {
            existing.drop_last()
        };
        let p = split_of(next, '\n');
        if existing.len() == 0 {
            assert(next =~= entry + seq!['\n'] + empty);
            lemma_split_one(entry, '\n');
            lemma_split_append(entry, empty, '\n');
            assert(p =~= seq![entry, empty]);
            assert(p.drop_last() =~= seq![entry]);
            assert(lines_of(next)[0] == entry);
        } else {
            assert(next =~= base + seq!['\n'] + entry + seq!['\n'] + empty);
            lemma_split_append(base, entry, '\n');
            lemma_split_append(base + seq!['\n'] + entry, empty, '\n');
            let q = split_of(base, '\n');
            assert(p =~= q.push(entry).push(empty));
            assert(p.drop_last() =~= q.push(entry));
            assert(lines_of(next)[q.len() as int] == entry);
        }
    }
}

/// The directory that the `.git` file of a linked worktree points to.
pub open spec fn pointed_dir(content: Seq<char>) -> Option<Seq<char>> {
    match after_prefix(content, "gitdir:"@) {
        Some(rest) => Some(trimmed(rest)),
        None => None,
    }
}

pub fn gitdir_line(content: &str) -> (r: Option<String>)
    ensures
        opt_text(r) == pointed_dir(content@),
{
    match strip_prefix(content, "gitdir:") {
        Some(rest) => Some(trim(&rest)),
        None => None,
    }
}

/// The outcome of excluding a path.
pub open spec fn exclude_word(written: bool) -> Seq<char> {
    if written {
        "added"@
    } else {
        "already-present"@
    }
}

pub fn exclude_outcome(written: bool) -> (r: String)
    ensures
        r@ == exclude_word(written),
{
    if written {
        "added".to_string()
    } else {
        "already-present".to_string()
    }
}

/// The address of the floating button's window.
pub open spec fn overlay_address(base: Seq<char>) -> Seq<char> {
    trim_end_of(base, Class::One('/')) + "/?win=screenshot-overlay"@
}

pub fn overlay_url(base: &str) -> (r: String)
    ensures
        r@ == overlay_address(base@),
{
    let mut out = trim_end_char(base, '/');
    out.append("/?win=screenshot-overlay");
    out
}

} // verus!
