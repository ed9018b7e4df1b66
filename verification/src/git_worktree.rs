//! Creating and removing worktrees, and gathering a repository's status.

use crate::git::{
    branch_chars, main_path, main_root, parse_worktrees, quiet, quiet_of, sanitize_branch,
    worktrees_of, GitOut, OutV,
};
use crate::git_flow::{
    as_json, as_unit, ask_worktrees, default_branch_name, out_views, outcome, query_view, step_view,
    succeeded, trunk_of, worktrees_command, Command, CommandV, GitStep, GitStepV, Query, QueryV,
};
use crate::git_status::{
    column_sum, diff_numstat, parse_repo_status, status_of, StatusParse, StatusParseV,
};
use crate::json::{fields, no_fields, put, set_field, Json, JsonV};
use crate::outside::{lowercase, to_lowercase};
use crate::text::{
    after_prefix, contains, contains_of, dec, decimal, hex_nat, hex_number, lines_of, opt_text,
    same, starts, strip_prefix, trim, trimmed,
};
use crate::windows::{byte_len, cut_bytes, cuts_cleanly, label_body, label_text, truncate_bytes};
use vstd::prelude::*;

verus! {

// ---------------------------------------------------------------------------
// Names
// ---------------------------------------------------------------------------

/// A name reduced to lower-case letters, numbers and inner dashes.
pub open spec fn work_body(name: Seq<char>) -> Seq<char> {
    label_body(lowercase(trimmed(name)))
}

/// The name of a worktree: at most forty bytes, and never empty.
pub open spec fn slug_of(name: Seq<char>) -> Seq<char> {
    let cut = cut_bytes(work_body(name), 40);
    if cut.len() == 0 {
        "work"@
    } else {
        cut
    }
}

fn work_text(name: &str) -> (r: String)
    ensures
        r@ == work_body(name@),
{
    label_text(&to_lowercase(&trim(name)))
}

/// The name of a worktree. The cut after forty bytes must not split a character.
pub fn slugify_work(name: &str) -> (r: String)
    requires
        cuts_cleanly(work_body(name@), 40),
    ensures
        r@ == slug_of(name@),
{
    let slug = truncate_bytes(&work_text(name), 40);
    if slug.as_str().is_empty() {
        "work".to_string()
    } else {
        slug
    }
}

/// The name of a worktree; `None` when the cut would split a character.
pub fn work_slug(name: &str) -> (r: Option<String>)
    ensures
        match r {
            Some(s) => cuts_cleanly(work_body(name@), 40) && s@ == slug_of(name@),
            None => !cuts_cleanly(work_body(name@), 40),
        },
{
    let body = work_text(name);
    if byte_len(&body) > 40 && !body.as_str().is_char_boundary(40) {
        return None;
    }
    Some(slugify_work(name))
}

/// The `n`th directory that is tried for a worktree.
pub open spec fn nth_dir(name: Seq<char>, n: nat) -> Seq<char> {
    if n <= 1 {
        name
    } else {
        name + "-"@ + dec(n)
    }
}

/// The name, then the name with `-2`, `-3` and so on.
pub fn unique_worktree_dir(name: &str, n: usize) -> (r: String)
    ensures
        r@ == nth_dir(name@, n as nat),
{
    let mut out = name.to_string();
    if n > 1 {
        out.append("-");
        out.append(&decimal(n as u128));
    }
    out
}

/// No directory is tried twice.
pub proof fn law_worktree_dirs_differ(name: Seq<char>, a: nat, b: nat)
    requires
        1 <= a < b,
    ensures
        nth_dir(name, a) != nth_dir(name, b),
{
    reveal_strlit("-");
    let n = name.len() as int + 1;
    if a > 1 && nth_dir(name, a) == nth_dir(name, b) {
        assert(dec(a) =~= nth_dir(name, a).skip(n));
        assert(dec(b) =~= nth_dir(name, b).skip(n));
        crate::text::lemma_dec_injective(a, b);
    }
}

// ---------------------------------------------------------------------------
// Making a directory a repository
// ---------------------------------------------------------------------------

pub open spec fn first_commit(cwd: Seq<char>) -> CommandV {
    CommandV {
        cwd,
        args: seq![
            "-c"@,
            "user.email=hermes@localhost"@,
            "-c"@,
            "user.name=Hermes"@,
            "commit"@,
            "--allow-empty"@,
            "-m"@,
            "Initial commit"@,
        ],
    }
}

fn ask_first_commit(cwd: &str) -> (r: Command)
    ensures
        r@ == first_commit(cwd@),
{
    Command::at(cwd).arg("-c").arg("user.email=hermes@localhost").arg("-c").arg(
        "user.name=Hermes",
    ).arg("commit").arg("--allow-empty").arg("-m").arg("Initial commit")
}

/// The commit that a repository without one gets.
pub open spec fn root_commit(cwd: Seq<char>, outs: Seq<OutV>) -> QueryV<Result<(), Seq<char>>> {
    if outs.len() == 0 {
        QueryV::Ask(first_commit(cwd))
    } else {
        QueryV::Known { value: succeeded(outs[0]), used: 1 }
    }
}

/// Makes sure that a directory is a repository with a commit. One that is both
/// is left alone.
pub open spec fn ensure_of(cwd: Seq<char>, outs: Seq<OutV>) -> QueryV<Result<(), Seq<char>>> {
    if outs.len() == 0 {
        QueryV::Ask(CommandV { cwd, args: seq!["rev-parse"@, "--is-inside-work-tree"@] })
    } else if quiet_of(outs[0]) == "true"@ {
        if outs.len() == 1 {
            QueryV::Ask(CommandV { cwd, args: seq!["rev-parse"@, "--verify"@, "HEAD"@] })
        } else if quiet_of(outs[1]).len() > 0 {
            QueryV::Known { value: Ok(()), used: 2 }
        } else {
            later(root_commit(cwd, outs.skip(2)), 2)
        }
    } else if outs.len() == 1 {
        QueryV::Ask(CommandV { cwd, args: seq!["init"@] })
    } else {
        match succeeded(outs[1]) {
            Err(e) => QueryV::Known { value: Err(e), used: 2 },
            Ok(_) => later(root_commit(cwd, outs.skip(2)), 2),
        }
    }
}

/// A question that is asked after `n` outputs were taken.
pub open spec fn later<V>(q: QueryV<V>, n: nat) -> QueryV<V> {
    match q {
        QueryV::Ask(c) => QueryV::Ask(c),
        QueryV::Known { value, used } => QueryV::Known { value, used: used + n },
    }
}

pub fn ensure_git_repo(cwd: &str, outs: &Vec<GitOut>) -> (r: Query<Result<(), String>>)
    ensures
        query_view(r, as_unit()) == ensure_of(cwd@, out_views(outs@)),
        r is Known ==> r->used <= outs@.len(),
{
    let ghost os = out_views(outs@);
    if outs.len() == 0 {
        return Query::Ask(Command::at(cwd).arg("rev-parse").arg("--is-inside-work-tree"));
    }
    assert(os[0] == outs@[0]@);
    if same(&quiet(&outs[0]), "true") {
        if outs.len() == 1 {
            return Query::Ask(Command::at(cwd).arg("rev-parse").arg("--verify").arg("HEAD"));
        }
        assert(os[1] == outs@[1]@);
        if !quiet(&outs[1]).as_str().is_empty() {
            return Query::Known { value: Ok(()), used: 2 };
        }
    } else {
        if outs.len() == 1 {
            return Query::Ask(Command::at(cwd).arg("init"));
        }
        assert(os[1] == outs@[1]@);
        if let Err(e) = outcome(&outs[1]) {
            return Query::Known { value: Err(e), used: 2 };
        }
    }
    if outs.len() == 2 {
        return Query::Ask(ask_first_commit(cwd));
    }
    assert(os.skip(2)[0] == outs@[2]@);
    Query::Known { value: outcome(&outs[2]), used: 3 }
}

// ---------------------------------------------------------------------------
// Adding a worktree
// ---------------------------------------------------------------------------

/// What a new worktree is made from.
pub struct WorktreeAddOptions {
    pub name: Option<String>,
    pub branch: Option<String>,
    pub base: Option<String>,
    pub existing_branch: Option<String>,
}

#[verifier::ext_equal]
pub struct AddV {
    pub name: Option<Seq<char>>,
    pub branch: Option<Seq<char>>,
    pub base: Option<Seq<char>>,
    pub existing_branch: Option<Seq<char>>,
}

impl View for WorktreeAddOptions {
    type V = AddV;

    open spec fn view(&self) -> AddV {
        AddV {
            name: opt_text(self.name),
            branch: opt_text(self.branch),
            base: opt_text(self.base),
            existing_branch: opt_text(self.existing_branch),
        }
    }
}

/// Where the work is, on which branch, and of which repository.
pub open spec fn place(path: Seq<char>, branch: Seq<char>, root: Seq<char>) -> JsonV {
    let o = put(no_fields(), "path"@, JsonV::Str(path));
    let o = put(o, "branch"@, JsonV::Str(branch));
    JsonV::Obj(put(o, "repoRoot"@, JsonV::Str(root)))
}

fn place_json(path: &str, branch: &str, root: &str) -> (r: Json)
    ensures
        r@ == place(path@, branch@, root@),
{
    broadcast use crate::json::group_json_views;

    let mut o: Vec<(String, Json)> = Vec::new();
    assert(fields(o@) =~= no_fields());
    set_field(&mut o, "path", Json::text(path));
    set_field(&mut o, "branch", Json::text(branch));
    set_field(&mut o, "repoRoot", Json::text(root));
    Json::Obj(o)
}

/// Runs one command, and answers with a place when it succeeds.
pub open spec fn placed(c: CommandV, answer: JsonV, outs: Seq<OutV>) -> GitStepV<
    Result<JsonV, Seq<char>>,
> {
    if outs.len() == 0 {
        GitStepV::Run(c)
    } else {
        GitStepV::Done(
            match succeeded(outs[0]) {
                Ok(_) => Ok(answer),
                Err(e) => Err(e),
            },
        )
    }
}

fn run_for_place(c: Command, answer: Json, outs: &Vec<GitOut>, at: usize) -> (r: GitStep<
    Result<Json, String>,
>)
    requires
        at <= outs@.len(),
    ensures
        step_view(r, as_json()) == placed(c@, answer@, out_views(outs@).skip(at as int)),
{
    if at == outs.len() {
        return GitStep::Run(c);
    }
    assert(out_views(outs@).skip(at as int)[0] == outs@[at as int]@);
    match outcome(&outs[at]) {
        Ok(_) => GitStep::Done(Ok(answer)),
        Err(e) => GitStep::Done(Err(e)),
    }
}

pub open spec fn checkout_worktree(root: Seq<char>, dir: Seq<char>, branch: Seq<char>) -> CommandV {
    CommandV { cwd: root, args: seq!["worktree"@, "add"@, dir, branch] }
}

fn ask_checkout(root: &str, dir: &str, branch: &str) -> (r: Command)
    ensures
        r@ == checkout_worktree(root@, dir@, branch@),
{
    Command::at(root).arg("worktree").arg("add").arg(dir).arg(branch)
}

/// A worktree for a branch that there is. The default branch is switched to in
/// place; any other gets a directory of its own.
pub open spec fn existing_of(
    root: Seq<char>,
    name: Seq<char>,
    dir: Option<Seq<char>>,
    outs: Seq<OutV>,
) -> GitStepV<Result<JsonV, Seq<char>>> {
    let branch = branch_chars(trimmed(name));
    if branch.len() == 0 {
        GitStepV::Done(Err("Branch name is required."@))
    } else {
        match trunk_of(root, outs) {
            QueryV::Ask(c) => GitStepV::Run(c),
            QueryV::Known { value, used } => {
                let rest = outs.skip(used as int);
                if value == Some(branch) {
                    placed(
                        CommandV { cwd: root, args: seq!["switch"@, branch] },
                        place(root, branch, root),
                        rest,
                    )
                } else if !cuts_cleanly(work_body(branch), 40) {
                    GitStepV::Stuck
                } else {
                    match dir {
                        None => GitStepV::PickDir { root, slug: slug_of(branch) },
                        Some(d) => placed(
                            checkout_worktree(root, d, branch),
                            place(d, branch, root),
                            rest,
                        ),
                    }
                }
            },
        }
    }
}

/// Checks out a branch that there is. `dir` is the directory that was chosen,
/// once it was asked for.
pub fn add_existing_branch_worktree(
    root: &str,
    name: &str,
    dir: &Option<String>,
    outs: &Vec<GitOut>,
) -> (r: GitStep<Result<Json, String>>)
    ensures
        step_view(r, as_json()) == existing_of(root@, name@, opt_text(*dir), out_views(outs@)),
{
    let ghost os = out_views(outs@);
    assert(os.skip(0) =~= os);
    let branch = sanitize_branch(name);
    if branch.as_str().is_empty() {
        return GitStep::Done(Err("Branch name is required.".to_string()));
    }
    match default_branch_name(root, outs, 0) {
        Query::Ask(c) => GitStep::Run(c),
        Query::Known { value, used } => {
            if crate::git::is_text(&value, &branch) {
                return run_for_place(
                    Command::at(root).arg("switch").arg(&branch),
                    place_json(root, &branch, root),
                    outs,
                    used,
                );
            }
            let slug = match work_slug(&branch) {
                Some(s) => s,
                None => {
                    return GitStep::Stuck;
                },
            };
            match dir {
                None => GitStep::PickDir { root: root.to_string(), slug },
                Some(d) => run_for_place(
                    ask_checkout(root, d, &branch),
                    place_json(d, &branch, root),
                    outs,
                    used,
                ),
            }
        },
    }
}

/// The command that makes a new branch in a new directory. A branch that starts
/// from the remote does not track it.
pub open spec fn new_worktree(
    root: Seq<char>,
    branch: Seq<char>,
    dir: Seq<char>,
    base: Option<Seq<char>>,
) -> CommandV {
    let args = seq!["worktree"@, "add"@, "-b"@, branch, dir];
    CommandV {
        cwd: root,
        args: match base {
            None => args,
            Some(b) => if starts(b, "origin/"@) {
                args.push("--no-track"@).push(b)
            } else {
                args.push(b)
            },
        },
    }
}

/// Makes the branch; where it exists already, it is checked out instead.
pub open spec fn made(
    root: Seq<char>,
    branch: Seq<char>,
    dir: Seq<char>,
    base: Option<Seq<char>>,
    outs: Seq<OutV>,
) -> GitStepV<Result<JsonV, Seq<char>>> {
    let answer = place(dir, branch, root);
    if outs.len() == 0 {
        GitStepV::Run(new_worktree(root, branch, dir, base))
    } else {
        match succeeded(outs[0]) {
            Ok(_) => GitStepV::Done(Ok(answer)),
            Err(e) => if contains_of(lowercase(e), "already exists"@) {
                placed(checkout_worktree(root, dir, branch), answer, outs.skip(1))
            } else {
                GitStepV::Done(Err(e))
            },
        }
    }
}

/// A base on the remote is fetched first, whatever comes of it.
pub open spec fn fetched_and_made(
    root: Seq<char>,
    branch: Seq<char>,
    dir: Seq<char>,
    base: Option<Seq<char>>,
    outs: Seq<OutV>,
) -> GitStepV<Result<JsonV, Seq<char>>> {
    match base {
        Some(b) => match after_prefix(b, "origin/"@) {
            Some(remote) => if outs.len() == 0 {
                GitStepV::Run(CommandV { cwd: root, args: seq!["fetch"@, "origin"@, remote] })
            } else {
                made(root, branch, dir, base, outs.skip(1))
            },
            None => made(root, branch, dir, base, outs),
        },
        None => made(root, branch, dir, base, outs),
    }
}

/// The name that new work gets.
pub open spec fn work_name(o: AddV, now: u64) -> Seq<char> {
    match o.name {
        Some(n) => n,
        None => "work-"@ + hex_nat(now as nat),
    }
}

/// The branch that new work is on: the one that is asked for, or one named after
/// the work.
pub open spec fn work_branch(o: AddV, slug: Seq<char>) -> Seq<char> {
    let asked = match o.branch {
        Some(b) => branch_chars(trimmed(b)),
        None => Seq::empty(),
    };
    if asked.len() > 0 {
        asked
    } else {
        "hermes/"@ + slug
    }
}

/// The root of the repository that a directory belongs to, from the list of its
/// worktrees.
pub open spec fn root_of(cwd: Seq<char>, list: OutV) -> Seq<char> {
    match main_path(worktrees_of(lines_of(quiet_of(list)))) {
        Some(p) => p,
        None => cwd,
    }
}

fn find_root(cwd: &str, list: &GitOut) -> (r: String)
    ensures
        r@ == root_of(cwd@, list@),
{
    match main_root(&parse_worktrees(&quiet(list))) {
        Some(p) => p,
        None => cwd.to_string(),
    }
}

pub open spec fn add_of(
    cwd: Seq<char>,
    o: AddV,
    now: u64,
    dir: Option<Seq<char>>,
    outs: Seq<OutV>,
) -> GitStepV<Result<JsonV, Seq<char>>> {
    match o.existing_branch {
        Some(name) => existing_of(cwd, name, dir, outs),
        None => match ensure_of(cwd, outs) {
            QueryV::Ask(c) => GitStepV::Run(c),
            QueryV::Known { value: Err(e), .. } => GitStepV::Done(Err(e)),
            QueryV::Known { value: Ok(_), used } => {
                let rest = outs.skip(used as int);
                if rest.len() == 0 {
                    GitStepV::Run(worktrees_command(cwd))
                } else if !cuts_cleanly(work_body(work_name(o, now)), 40) {
                    GitStepV::Stuck
                } else {
                    let root = root_of(cwd, rest[0]);
                    let slug = slug_of(work_name(o, now));
                    match dir {
                        None => GitStepV::PickDir { root, slug },
                        Some(d) => fetched_and_made(
                            root,
                            work_branch(o, slug),
                            d,
                            o.base,
                            rest.skip(1),
                        ),
                    }
                }
            },
        },
    }
}

fn ask_new_worktree(root: &str, branch: &str, dir: &str, base: &Option<String>) -> (r: Command)
    ensures
        r@ == new_worktree(root@, branch@, dir@, opt_text(*base)),
{
    let c = Command::at(root).arg("worktree").arg("add").arg("-b").arg(branch).arg(dir);
    match base {
        None => c,
        Some(b) => if crate::text::starts_with(b, "origin/") {
            c.arg("--no-track").arg(b)
        } else {
            c.arg(b)
        },
    }
}

fn make_worktree(
    root: &str,
    branch: &str,
    dir: &str,
    base: &Option<String>,
    outs: &Vec<GitOut>,
    at: usize,
) -> (r: GitStep<Result<Json, String>>)
    requires
        at <= outs@.len(),
    ensures
        step_view(r, as_json()) == made(
            root@,
            branch@,
            dir@,
            opt_text(*base),
            out_views(outs@).skip(at as int),
        ),
{
    let ghost os = out_views(outs@).skip(at as int);
    if at == outs.len() {
        return GitStep::Run(ask_new_worktree(root, branch, dir, base));
    }
    assert(os[0] == outs@[at as int]@);
    match outcome(&outs[at]) {
        Ok(_) => GitStep::Done(Ok(place_json(dir, branch, root))),
        Err(e) => {
            if contains(&to_lowercase(&e), "already exists") {
                assert(os.skip(1) =~= out_views(outs@).skip(at + 1));
                run_for_place(
                    ask_checkout(root, dir, branch),
                    place_json(dir, branch, root),
                    outs,
                    at + 1,
                )
            } else {
                GitStep::Done(Err(e))
            }
        },
    }
}

fn fetch_and_make(
    root: &str,
    branch: &str,
    dir: &str,
    base: &Option<String>,
    outs: &Vec<GitOut>,
    at: usize,
) -> (r: GitStep<Result<Json, String>>)
    requires
        at <= outs@.len(),
    ensures
        step_view(r, as_json()) == fetched_and_made(
            root@,
            branch@,
            dir@,
            opt_text(*base),
            out_views(outs@).skip(at as int),
        ),
{
    if let Some(b) = base {
        if let Some(remote) = strip_prefix(b, "origin/") {
            if at == outs.len() {
                return GitStep::Run(
                    Command::at(root).arg("fetch").arg("origin").arg(&remote),
                );
            }
            assert(out_views(outs@).skip(at as int).skip(1) =~= out_views(outs@).skip(at + 1));
            return make_worktree(root, branch, dir, base, outs, at + 1);
        }
    }
    make_worktree(root, branch, dir, base, outs, at)
}

/// Creates a worktree, or checks out a branch that there is. `now` is the time
/// in seconds; `dir` is the directory that was chosen, once it was asked for.
pub fn git_worktree_add(
    repo_path: &str,
    options: &WorktreeAddOptions,
    now: u64,
    dir: &Option<String>,
    outs: &Vec<GitOut>,
) -> (r: GitStep<Result<Json, String>>)
    ensures
        step_view(r, as_json()) == add_of(
            repo_path@,
            options@,
            now,
            opt_text(*dir),
            out_views(outs@),
        ),
{
    let ghost os = out_views(outs@);
    if let Some(name) = &options.existing_branch {
        return add_existing_branch_worktree(repo_path, name, dir, outs);
    }
    match ensure_git_repo(repo_path, outs) {
        Query::Ask(c) => GitStep::Run(c),
        Query::Known { value: Err(e), .. } => GitStep::Done(Err(e)),
        Query::Known { value: Ok(_), used } => {
            if used == outs.len() {
                return GitStep::Run(ask_worktrees(repo_path));
            }
            assert(os.skip(used as int)[0] == outs@[used as int]@);
            let root = find_root(repo_path, &outs[used]);
            let name = match &options.name {
                Some(n) => n.clone(),
                None => {
                    let mut n = "work-".to_string();
                    n.append(&hex_number(now as u128));
                    n
                },
            };
            let slug = match work_slug(&name) {
                Some(s) => s,
                None => {
                    return GitStep::Stuck;
                },
            };
            let asked = match &options.branch {
                Some(b) => sanitize_branch(b),
                None => {
                    let none = String::new();
                    assert(none@ =~= Seq::<char>::empty());
                    none
                },
            };
            let branch = if asked.as_str().is_empty() {
                let mut b = "hermes/".to_string();
                b.append(&slug);
                b
            } else {
                asked
            };
            match dir {
                None => GitStep::PickDir { root, slug },
                Some(d) => {
                    assert(os.skip(used as int).skip(1) =~= os.skip(used + 1));
                    fetch_and_make(&root, &branch, d, &options.base, outs, used + 1)
                },
            }
        },
    }
}

// ---------------------------------------------------------------------------
// Removing a worktree
// ---------------------------------------------------------------------------

pub struct WorktreeRemoveOptions {
    pub force: Option<bool>,
}

pub open spec fn forced(o: Option<WorktreeRemoveOptions>) -> bool {
    match o {
        Some(w) => w.force == Some(true),
        None => false,
    }
}

/// Removes a worktree, from the root of its repository.
pub open spec fn remove_of(cwd: Seq<char>, path: Seq<char>, force: bool, outs: Seq<OutV>) -> GitStepV<
    Result<JsonV, Seq<char>>,
> {
    if outs.len() == 0 {
        GitStepV::Run(worktrees_command(cwd))
    } else {
        placed(
            CommandV {
                cwd: root_of(cwd, outs[0]),
                args: if force {
                    seq!["worktree"@, "remove"@, "--force"@, path]
                } else {
                    seq!["worktree"@, "remove"@, path]
                },
            },
            JsonV::Obj(put(no_fields(), "removed"@, JsonV::Str(path))),
            outs.skip(1),
        )
    }
}

pub fn worktree_remove(
    repo_path: &str,
    worktree_path: &str,
    options: &Option<WorktreeRemoveOptions>,
    outs: &Vec<GitOut>,
) -> (r: GitStep<Result<Json, String>>)
    ensures
        step_view(r, as_json()) == remove_of(
            repo_path@,
            worktree_path@,
            forced(*options),
            out_views(outs@),
        ),
{
    broadcast use crate::json::group_json_views;

    if outs.len() == 0 {
        return GitStep::Run(ask_worktrees(repo_path));
    }
    assert(out_views(outs@)[0] == outs@[0]@);
    let root = find_root(repo_path, &outs[0]);
    let force = match options {
        Some(o) => match o.force {
            Some(f) => f,
            None => false,
        },
        None => false,
    };
    let c = Command::at(&root).arg("worktree").arg("remove");
    let c = if force {
        c.arg("--force").arg(worktree_path)
    } else {
        c.arg(worktree_path)
    };
    let mut o: Vec<(String, Json)> = Vec::new();
    assert(fields(o@) =~= no_fields());
    set_field(&mut o, "removed", Json::text(worktree_path));
    run_for_place(c, Json::Obj(o), outs, 1)
}

// ---------------------------------------------------------------------------
// The status of a repository
// ---------------------------------------------------------------------------

/// What the runs of a status give, before the untracked files are counted.
pub struct GatheredStatus {
    pub parse: StatusParse,
    pub added: u64,
    pub removed: u64,
    pub default_branch: Option<String>,
}

#[verifier::ext_equal]
pub struct GatheredV {
    pub parse: StatusParseV,
    pub added: int,
    pub removed: int,
    pub default_branch: Option<Seq<char>>,
}

pub open spec fn as_gathered() -> spec_fn(Option<GatheredStatus>) -> Option<GatheredV> {
    |o: Option<GatheredStatus>|
        match o {
            Some(g) => Some(
                GatheredV {
                    parse: g.parse@,
                    added: g.added as int,
                    removed: g.removed as int,
                    default_branch: opt_text(g.default_branch),
                },
            ),
            None => None,
        }
}

/// The runs of a status. There is none of what is no directory or no repository.
pub open spec fn status_step(cwd: Seq<char>, is_dir: bool, outs: Seq<OutV>) -> GitStepV<
    Option<GatheredV>,
> {
    if !is_dir {
        GitStepV::Done(None)
    } else if outs.len() == 0 {
        GitStepV::Run(
            CommandV {
                cwd,
                args: seq![
                    "status"@,
                    "--porcelain=v2"@,
                    "--branch"@,
                    "--untracked-files=normal"@,
                ],
            },
        )
    } else if quiet_of(outs[0]).len() == 0 {
        GitStepV::Done(None)
    } else if outs.len() == 1 {
        GitStepV::Run(CommandV { cwd, args: seq!["diff"@, "HEAD"@, "--numstat"@] })
    } else {
        let added = column_sum(lines_of(quiet_of(outs[1])), 0);
        let removed = column_sum(lines_of(quiet_of(outs[1])), 1);
        if added > u64::MAX || removed > u64::MAX {
            GitStepV::Stuck
        } else {
            match trunk_of(cwd, outs.skip(2)) {
                QueryV::Ask(c) => GitStepV::Run(c),
                QueryV::Known { value, .. } => GitStepV::Done(
                    Some(
                        GatheredV {
                            parse: status_of(lines_of(quiet_of(outs[0]))),
                            added: added as int,
                            removed: removed as int,
                            default_branch: value,
                        },
                    ),
                ),
            }
        }
    }
}

pub fn repo_status_step(repo_path: &str, is_dir: bool, outs: &Vec<GitOut>) -> (r: GitStep<
    Option<GatheredStatus>,
>)
    ensures
        step_view(r, as_gathered()) == status_step(repo_path@, is_dir, out_views(outs@)),
{
    let ghost os = out_views(outs@);
    if !is_dir {
        return GitStep::Done(None);
    }
    if outs.len() == 0 {
        return GitStep::Run(
            Command::at(repo_path).arg("status").arg("--porcelain=v2").arg("--branch").arg(
                "--untracked-files=normal",
            ),
        );
    }
    assert(os[0] == outs@[0]@);
    let status = quiet(&outs[0]);
    if status.as_str().is_empty() {
        return GitStep::Done(None);
    }
    if outs.len() == 1 {
        return GitStep::Run(Command::at(repo_path).arg("diff").arg("HEAD").arg("--numstat"));
    }
    assert(os[1] == outs@[1]@);
    let (added, removed) = match diff_numstat(&quiet(&outs[1])) {
        Some(p) => p,
        None => {
            return GitStep::Stuck;
        },
    };
    match default_branch_name(repo_path, outs, 2) {
        Query::Ask(c) => GitStep::Run(c),
        Query::Known { value, .. } => GitStep::Done(
            Some(
                GatheredStatus {
                    parse: parse_repo_status(&status),
                    added,
                    removed,
                    default_branch: value,
                },
            ),
        ),
    }
}

} // verus!
