//! Reading what `git` prints: refs, worktrees, status and change counts.

use crate::outside::{is_letter_or_number, letter_or_number};
use crate::text::{
    after_prefix, before, chars_of, class_has, dec_int, decimal_int, lines, lines_of, opt_text,
    pick, same, split, split_of, starts, starts_with, strip_prefix, text_range, text_result, texts,
    trim, trimmed, white_space, Class,
};
use vstd::prelude::*;

verus! {

pub const UNTRACKED_LINE_MAX_BYTES: u64 = 1048576;

pub const REVIEW_FILE_CAP: usize = 2000;

// ---------------------------------------------------------------------------
// Results of a run
// ---------------------------------------------------------------------------

/// What one run of `git` gave.
pub struct GitOut {
    pub code: i32,
    pub stdout: String,
    pub stderr: String,
}

#[verifier::ext_equal]
pub struct OutV {
    pub code: i32,
    pub stdout: Seq<char>,
    pub stderr: Seq<char>,
}

impl View for GitOut {
    type V = OutV;

    open spec fn view(&self) -> OutV {
        OutV { code: self.code, stdout: self.stdout@, stderr: self.stderr@ }
    }
}

/// The trimmed output of a run that has to succeed, or what it complained of.
pub open spec fn checked_of(o: OutV) -> Result<Seq<char>, Seq<char>> {
    if o.code == 0 {
        Ok(trimmed(o.stdout))
    } else if trimmed(o.stderr).len() == 0 {
        Err("git exited "@ + dec_int(o.code as int))
    } else {
        Err(trimmed(o.stderr))
    }
}

pub fn checked(o: &GitOut) -> (r: Result<String, String>)
    ensures
        text_result(r) == checked_of(o@),
{
    if o.code == 0 {
        return Ok(trim(&o.stdout));
    }
    let complaint = trim(&o.stderr);
    if complaint.as_str().is_empty() {
        let mut e = "git exited ".to_string();
        e.append(&decimal_int(o.code as i128));
        Err(e)
    } else {
        Err(complaint)
    }
}

/// The trimmed output of a run; empty when it failed.
pub open spec fn quiet_of(o: OutV) -> Seq<char> {
    if o.code == 0 {
        trimmed(o.stdout)
    } else {
        Seq::empty()
    }
}

pub fn quiet(o: &GitOut) -> (r: String)
    ensures
        r@ == quiet_of(o@),
{
    if o.code == 0 {
        trim(&o.stdout)
    } else {
        let none = String::new();
        assert(none@ =~= Seq::<char>::empty());
        none
    }
}

// ---------------------------------------------------------------------------
// Refs
// ---------------------------------------------------------------------------

/// The ref that a line names: its first column, when there is one.
pub open spec fn ref_of(line: Seq<char>) -> Option<Seq<char>> {
    let name = trimmed(split_of(line, '\t')[0]);
    if name.len() > 0 {
        Some(name)
    } else {
        None
    }
}

pub open spec fn refs_of(out: Seq<char>) -> Seq<Seq<char>> {
    pick(lines_of(out), |l: Seq<char>| ref_of(l))
}

pub fn parse_ref_lines(out: &str) -> (r: Vec<String>)
    ensures
        texts(r@) == refs_of(out@),
{
    let all = lines(out);
    let ghost l = lines_of(out@);
    let ghost f = |l: Seq<char>| ref_of(l);
    let mut res: Vec<String> = Vec::new();
    assert(texts(res@) =~= pick(l.take(0), f));
    let mut i: usize = 0;
    while i < all.len()
        invariant
            i <= all@.len(),
            texts(all@) == l,
            f == (|l: Seq<char>| ref_of(l)),
            texts(res@) == pick(l.take(i as int), f),
        decreases all@.len() - i,
    {
        assert(l.take(i + 1).drop_last() =~= l.take(i as int));
        assert(l.take(i + 1).last() == all@[i as int]@) by {
            assert(texts(all@)[i as int] == all@[i as int]@);
        }
        let cols = split(&all[i], '\t');
        proof {
            crate::text::lemma_split_nonempty(all@[i as int]@, '\t');
            assert(texts(cols@)[0] == cols@[0]@);
        }
        let name = trim(&cols[0]);
        if !name.as_str().is_empty() {
            let ghost before = texts(res@);
            res.push(name);
            assert(texts(res@) =~= before.push(name@));
        }
        i += 1;
    }
    assert(l.take(i as int) =~= l);
    res
}

/// A branch name made of what a ref may hold: white space becomes dashes, and
/// other odd characters go.
pub open spec fn branch_char(c: char) -> Option<char> {
    if white_space(c) {
        Some('-')
    } else if letter_or_number(c) || c == '-' || c == '.' || c == '/' || c == '_' {
        Some(c)
    } else {
        None
    }
}

pub open spec fn branch_chars(s: Seq<char>) -> Seq<char>
    decreases s.len(),
{
    if s.len() == 0 {
        Seq::empty()
    } else {
        match branch_char(s.last()) {
            Some(c) => branch_chars(s.drop_last()).push(c),
            None => branch_chars(s.drop_last()),
        }
    }
}

pub fn sanitize_branch(name: &str) -> (r: String)
    ensures
        r@ == branch_chars(trimmed(name@)),
{
    let t = trim(name);
    let v = chars_of(&t);
    let mut out = String::new();
    let mut i: usize = 0;
    while i < v.len()
        invariant
            i <= v@.len(),
            v@ == t@,
            out@ == branch_chars(t@.take(i as int)),
        decreases v@.len() - i,
    {
        assert(t@.take(i + 1).drop_last() =~= t@.take(i as int));
        let c = v[i];
        if class_has(Class::White, c) {
            out.push('-');
        } else if is_letter_or_number(c) || c == '-' || c == '.' || c == '/' || c == '_' {
            out.push(c);
        }
        i += 1;
    }
    assert(t@.take(i as int) =~= t@);
    out
}

// ---------------------------------------------------------------------------
// Worktrees
// ---------------------------------------------------------------------------

pub struct WorktreeEntry {
    pub path: String,
    pub branch: Option<String>,
    pub is_main: bool,
    pub detached: bool,
    pub locked: bool,
}

#[verifier::ext_equal]
pub struct WorktreeV {
    pub path: Seq<char>,
    pub branch: Option<Seq<char>>,
    pub is_main: bool,
    pub detached: bool,
    pub locked: bool,
}

impl View for WorktreeEntry {
    type V = WorktreeV;

    open spec fn view(&self) -> WorktreeV {
        WorktreeV {
            path: self.path@,
            branch: opt_text(self.branch),
            is_main: self.is_main,
            detached: self.detached,
            locked: self.locked,
        }
    }
}

pub open spec fn worktree_views(v: Seq<WorktreeEntry>) -> Seq<WorktreeV> {
    v.map_values(|w: WorktreeEntry| w@)
}

/// Every leading `refs/heads/` removed.
pub open spec fn short_ref(s: Seq<char>, prefix: Seq<char>) -> Seq<char>
    decreases s.len(),
{
    if prefix.len() > 0 && starts(s, prefix) {
        short_ref(s.skip(prefix.len() as int), prefix)
    } else {
        s
    }
}

pub fn strip_all_prefixes(s: &str, prefix: &str) -> (r: String)
    ensures
        r@ == short_ref(s@, prefix@),
{
    let mut cur = s.to_string();
    if prefix.is_empty() {
        return cur;
    }
    while starts_with(&cur, prefix)
        invariant
            prefix@.len() > 0,
            short_ref(s@, prefix@) == short_ref(cur@, prefix@),
        decreases cur@.len(),
    {
        let v = chars_of(&cur);
        let n: usize = chars_of(prefix).len();
        assert(v@.subrange(n as int, v@.len() as int) =~= cur@.skip(n as int));
        cur = text_range(&v, n, v.len());
    }
    cur
}

/// One more line of `git worktree list --porcelain`. A `worktree` line opens a
/// record, of which the very first is the main one; the lines after it fill in
/// the last record.
pub open spec fn worktree_line(trees: Seq<WorktreeV>, line: Seq<char>) -> Seq<WorktreeV> {
    match after_prefix(line, "worktree "@) {
        Some(rest) => trees.push(
            WorktreeV {
                path: trimmed(rest),
                branch: None,
                is_main: trees.len() == 0,
                detached: false,
                locked: false,
            },
        ),
        None => if trees.len() == 0 {
            trees
        } else {
            let cur = trees.last();
            let next = match after_prefix(line, "branch "@) {
                Some(rest) => WorktreeV {
                    branch: Some(short_ref(trimmed(rest), "refs/heads/"@)),
                    ..cur
                },
                None => if line == "detached"@ {
                    WorktreeV { detached: true, ..cur }
                } else if starts(line, "locked"@) {
                    WorktreeV { locked: true, ..cur }
                } else {
                    cur
                },
            };
            trees.drop_last().push(next)
        },
    }
}

pub open spec fn worktrees_of(l: Seq<Seq<char>>) -> Seq<WorktreeV>
    decreases l.len(),
{
    if l.len() == 0 {
        Seq::empty()
    } else {
        worktree_line(worktrees_of(l.drop_last()), l.last())
    }
}

/// The worktrees of a repository, the main one first.
pub fn parse_worktrees(out: &str) -> (r: Vec<WorktreeEntry>)
    ensures
        worktree_views(r@) == worktrees_of(lines_of(out@)),
{
    let all = lines(out);
    let ghost l = lines_of(out@);
    let mut trees: Vec<WorktreeEntry> = Vec::new();
    assert(worktree_views(trees@) =~= worktrees_of(l.take(0)));
    let mut i: usize = 0;
    while i < all.len()
        invariant
            i <= all@.len(),
            texts(all@) == l,
            worktree_views(trees@) == worktrees_of(l.take(i as int)),
        decreases all@.len() - i,
    {
        assert(l.take(i + 1).drop_last() =~= l.take(i as int));
        assert(l.take(i + 1).last() == all@[i as int]@) by {
            assert(texts(all@)[i as int] == all@[i as int]@);
        }
        let ghost before = worktree_views(trees@);
        let line = &all[i];
        if let Some(rest) = strip_prefix(line, "worktree ") {
            let first = trees.len() == 0;
            let w = WorktreeEntry {
                path: trim(&rest),
                branch: None,
                is_main: first,
                detached: false,
                locked: false,
            };
            trees.push(w);
            assert(worktree_views(trees@) =~= before.push(w@));
        } else if trees.len() > 0 {
            let mut cur = trees.pop().unwrap();
            assert(worktree_views(trees@) =~= before.drop_last());
            assert(cur@ == before.last());
            if let Some(rest) = strip_prefix(line, "branch ") {
                cur.branch = Some(strip_all_prefixes(&trim(&rest), "refs/heads/"));
            } else if same(line, "detached") {
                cur.detached = true;
            } else if starts_with(line, "locked") {
                cur.locked = true;
            }
            trees.push(cur);
            assert(worktree_views(trees@) =~= before.drop_last().push(cur@));
        }
        i += 1;
    }
    assert(l.take(i as int) =~= l);
    trees
}

/// Exactly the first worktree is the main one.
pub proof fn law_first_worktree_is_main(l: Seq<Seq<char>>)
    ensures
        forall|i: int|
            0 <= i < worktrees_of(l).len() ==> (#[trigger] worktrees_of(l)[i]).is_main == (i == 0),
    decreases l.len(),
{
    if l.len() > 0 {
        law_first_worktree_is_main(l.drop_last());
        let a = worktrees_of(l.drop_last());
        let b = worktrees_of(l);
        assert forall|i: int| 0 <= i < b.len() implies (#[trigger] b[i]).is_main == (i == 0) by {
            if i < a.len() {
                assert(a[i].is_main == (i == 0));
            }
        }
    }
}

/// The path of the main worktree.
pub fn main_root(trees: &Vec<WorktreeEntry>) -> (r: Option<String>)
    ensures
        opt_text(r) == main_path(worktree_views(trees@)),
{
    let ghost t = worktree_views(trees@);
    let mut i: usize = 0;
    assert(t.skip(0) =~= t);
    while i < trees.len()
        invariant
            i <= trees@.len(),
            t == worktree_views(trees@),
            main_path(t) == main_path(t.skip(i as int)),
        decreases trees@.len() - i,
    {
        assert(t.skip(i as int)[0] == trees@[i as int]@);
        assert(t.skip(i as int).drop_first() =~= t.skip(i + 1));
        if trees[i].is_main {
            return Some(trees[i].path.clone());
        }
        i += 1;
    }
    None
}

pub open spec fn main_path(t: Seq<WorktreeV>) -> Option<Seq<char>>
    decreases t.len(),
{
    if t.len() == 0 {
        None
    } else if t[0].is_main {
        Some(t[0].path)
    } else {
        main_path(t.drop_first())
    }
}

// ---------------------------------------------------------------------------
// Branch lists
// ---------------------------------------------------------------------------

pub struct BranchEntry {
    pub name: String,
    pub checked_out: bool,
    pub is_default: bool,
    pub worktree_path: Option<String>,
}

#[verifier::ext_equal]
pub struct BranchV {
    pub name: Seq<char>,
    pub checked_out: bool,
    pub is_default: bool,
    pub worktree_path: Option<Seq<char>>,
}

impl View for BranchEntry {
    type V = BranchV;

    open spec fn view(&self) -> BranchV {
        BranchV {
            name: self.name@,
            checked_out: self.checked_out,
            is_default: self.is_default,
            worktree_path: opt_text(self.worktree_path),
        }
    }
}

/// The path of the last worktree that has the branch checked out.
pub open spec fn path_of_branch(t: Seq<WorktreeV>, branch: Seq<char>) -> Option<Seq<char>>
    decreases t.len(),
{
    if t.len() == 0 {
        None
    } else if t.last().branch == Some(branch) {
        Some(t.last().path)
    } else {
        path_of_branch(t.drop_last(), branch)
    }
}

pub fn worktree_of_branch(trees: &Vec<WorktreeEntry>, branch: &str) -> (r: Option<String>)
    ensures
        opt_text(r) == path_of_branch(worktree_views(trees@), branch@),
{
    let ghost t = worktree_views(trees@);
    let mut n: usize = trees.len();
    assert(t.take(n as int) =~= t);
    while n > 0
        invariant
            n <= trees@.len(),
            t == worktree_views(trees@),
            path_of_branch(t, branch@) == path_of_branch(t.take(n as int), branch@),
        decreases n,
    {
        assert(t.take(n as int).last() == trees@[n - 1]@);
        assert(t.take(n as int).drop_last() =~= t.take(n - 1));
        if let Some(b) = &trees[n - 1].branch {
            if same(b, branch) {
                return Some(trees[n - 1].path.clone());
            }
        }
        n -= 1;
    }
    None
}

pub open spec fn branch_view(
    name: Seq<char>,
    trees: Seq<WorktreeV>,
    trunk: Option<Seq<char>>,
) -> BranchV {
    BranchV {
        name,
        checked_out: path_of_branch(trees, name) is Some,
        is_default: trunk == Some(name),
        worktree_path: path_of_branch(trees, name),
    }
}

pub open spec fn branch_views(v: Seq<BranchEntry>) -> Seq<BranchV> {
    v.map_values(|b: BranchEntry| b@)
}

/// Whether an optional text is this one.
pub fn is_text(o: &Option<String>, s: &str) -> (r: bool)
    ensures
        r == (opt_text(*o) == Some(s@)),
{
    match o {
        Some(x) => same(x, s),
        None => false,
    }
}

/// The local branches, each with where it is checked out and whether it is the
/// default one.
pub fn branch_list(out: &str, trees: &Vec<WorktreeEntry>, trunk: &Option<String>) -> (r: Vec<
    BranchEntry,
>)
    ensures
        branch_views(r@) == refs_of(out@).map_values(
            |n: Seq<char>| branch_view(n, worktree_views(trees@), opt_text(*trunk)),
        ),
{
    let names = parse_ref_lines(out);
    let ghost ns = refs_of(out@);
    let ghost f = |n: Seq<char>| branch_view(n, worktree_views(trees@), opt_text(*trunk));
    let mut res: Vec<BranchEntry> = Vec::new();
    let mut i: usize = 0;
    assert(branch_views(res@) =~= ns.map_values(f).take(0));
    while i < names.len()
        invariant
            i <= names@.len(),
            texts(names@) == ns,
            f == (|n: Seq<char>| branch_view(n, worktree_views(trees@), opt_text(*trunk))),
            branch_views(res@) == ns.map_values(f).take(i as int),
        decreases names@.len() - i,
    {
        assert(texts(names@)[i as int] == names@[i as int]@);
        let ghost before = branch_views(res@);
        let name = names[i].clone();
        let path = worktree_of_branch(trees, &name);
        let b = BranchEntry {
            checked_out: path.is_some(),
            is_default: is_text(trunk, &name),
            worktree_path: path,
            name,
        };
        res.push(b);
        assert(branch_views(res@) =~= before.push(b@));
        assert(ns.map_values(f).take(i + 1) =~= ns.map_values(f).take(i as int).push(
            f(ns[i as int]),
        ));
        i += 1;
    }
    assert(ns.map_values(f).take(i as int) =~= ns.map_values(f));
    res
}

pub struct BaseBranchEntry {
    pub name: String,
    pub is_remote: bool,
    pub is_default: bool,
}

#[verifier::ext_equal]
pub struct BaseBranchV {
    pub name: Seq<char>,
    pub is_remote: bool,
    pub is_default: bool,
}

impl View for BaseBranchEntry {
    type V = BaseBranchV;

    open spec fn view(&self) -> BaseBranchV {
        BaseBranchV {
            name: self.name@,
            is_remote: self.is_remote,
            is_default: self.is_default,
        }
    }
}

/// The default is the remote's when it is known, else the local one.
pub open spec fn base_branch_view(
    name: Seq<char>,
    remote_default: Seq<char>,
    local_default: Option<Seq<char>>,
) -> BaseBranchV {
    BaseBranchV {
        name,
        is_remote: starts(name, "origin/"@),
        is_default: if remote_default.len() > 0 {
            name == remote_default
        } else {
            local_default == Some(name)
        },
    }
}

pub open spec fn base_branch_views(v: Seq<BaseBranchEntry>) -> Seq<BaseBranchV> {
    v.map_values(|b: BaseBranchEntry| b@)
}

/// The branches that new work can start from.
pub fn base_branch_list(
    out: &str,
    remote_default: &str,
    local_default: &Option<String>,
) -> (r: Vec<BaseBranchEntry>)
    ensures
        base_branch_views(r@) == refs_of(out@).map_values(
            |n: Seq<char>| base_branch_view(n, remote_default@, opt_text(*local_default)),
        ),
{
    let names = parse_ref_lines(out);
    let ghost ns = refs_of(out@);
    let ghost f = |n: Seq<char>|
        base_branch_view(n, remote_default@, opt_text(*local_default));
    let mut res: Vec<BaseBranchEntry> = Vec::new();
    let mut i: usize = 0;
    assert(base_branch_views(res@) =~= ns.map_values(f).take(0));
    while i < names.len()
        invariant
            i <= names@.len(),
            texts(names@) == ns,
            f == (|n: Seq<char>|
                base_branch_view(n, remote_default@, opt_text(*local_default))),
            base_branch_views(res@) == ns.map_values(f).take(i as int),
        decreases names@.len() - i,
    {
        assert(texts(names@)[i as int] == names@[i as int]@);
        let ghost before = base_branch_views(res@);
        let name = names[i].clone();
        let is_default = if remote_default.is_empty() {
            is_text(local_default, &name)
        } else {
            same(&name, remote_default)
        };
        let b = BaseBranchEntry { is_remote: starts_with(&name, "origin/"), is_default, name };
        res.push(b);
        assert(base_branch_views(res@) =~= before.push(b@));
        assert(ns.map_values(f).take(i + 1) =~= ns.map_values(f).take(i as int).push(
            f(ns[i as int]),
        ));
        i += 1;
    }
    assert(ns.map_values(f).take(i as int) =~= ns.map_values(f));
    res
}

} // verus!
