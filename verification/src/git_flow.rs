//! Commands that take several runs of `git`. Each is a function from the
//! outputs so far to the next run, or to the answer.

use crate::git::{
    base_branch_list, base_branch_view, base_branch_views, branch_chars, branch_list, branch_view,
    branch_views, checked, checked_of, parse_worktrees, quiet, quiet_of, sanitize_branch, short_ref,
    strip_all_prefixes, worktree_views, worktrees_of, BaseBranchEntry, BaseBranchV, BranchEntry,
    BranchV, GitOut, OutV, WorktreeEntry, WorktreeV, REVIEW_FILE_CAP,
};
use crate::git_review::{
    any_staged, commit_context, context_diff, created_pr_url, entries_of, fits, has_staged,
    last_shown, parse_status_v2_lines, path_order, pr_of, pr_view, range_list_of, review_list_range,
    review_list_uncommitted, review_scope, review_views, scope_of, ship_info, uncommitted_of,
    CommitContext, ReviewFile, ReviewList, ReviewScope, ReviewScopeV, ReviewShipInfo, ReviewV,
};
use crate::git_status::{at_most, diff_numstat_files, file_counts};
use crate::json::{fields, no_fields, put, set_field, Json, JsonV};
use crate::order::sorted_by;
use crate::text::{lines_of, opt_text, same, split_of, starts, starts_with, texts, trim, trimmed};
use crate::windows::{byte_len, cuts_cleanly};
use vstd::prelude::*;

verus! {

// ---------------------------------------------------------------------------
// Commands and steps
// ---------------------------------------------------------------------------

/// A program to run: where, and with which arguments.
pub struct Command {
    pub cwd: String,
    pub args: Vec<String>,
}

#[verifier::ext_equal]
pub struct CommandV {
    pub cwd: Seq<char>,
    pub args: Seq<Seq<char>>,
}

impl View for Command {
    type V = CommandV;

    open spec fn view(&self) -> CommandV {
        CommandV { cwd: self.cwd@, args: texts(self.args@) }
    }
}

impl Command {
    pub fn at(cwd: &str) -> (r: Command)
        ensures
            r@ == (CommandV { cwd: cwd@, args: seq![] }),
    {
        let args: Vec<String> = Vec::new();
        assert(texts(args@) =~= seq![]);
        Command { cwd: cwd.to_string(), args }
    }

    /// The command with one more argument.
    pub fn arg(self, s: &str) -> (r: Command)
        ensures
            r@ == (CommandV { cwd: self@.cwd, args: self@.args.push(s@) }),
    {
        let mut args = self.args;
        let ghost before = texts(args@);
        args.push(s.to_string());
        assert(texts(args@) =~= before.push(s@));
        Command { cwd: self.cwd, args }
    }
}

/// A question that takes runs of `git`.
pub enum Query<T> {
    Ask(Command),
    /// The answer, with how many outputs it took.
    Known { value: T, used: usize },
}

#[verifier::ext_equal]
pub enum QueryV<V> {
    Ask(CommandV),
    Known { value: V, used: nat },
}

pub open spec fn query_view<T, V>(q: Query<T>, f: spec_fn(T) -> V) -> QueryV<V> {
    match q {
        Query::Ask(c) => QueryV::Ask(c@),
        Query::Known { value, used } => QueryV::Known { value: f(value), used: used as nat },
    }
}

/// The next thing to do for a command of the application.
pub enum GitStep<T> {
    /// Run `git`, and hand its output back behind the earlier ones.
    Run(Command),
    /// Run `gh`, and hand its output back in the same way; the code is zero when
    /// it succeeded.
    RunGh(Command),
    /// Choose a free directory for a worktree below a root.
    PickDir { root: String, slug: String },
    /// There is no going on: a text would have to be cut inside a character, or
    /// a count does not fit.
    Stuck,
    Done(T),
}

#[verifier::ext_equal]
pub enum GitStepV<V> {
    Run(CommandV),
    RunGh(CommandV),
    PickDir { root: Seq<char>, slug: Seq<char> },
    Stuck,
    Done(V),
}

pub open spec fn step_view<T, V>(s: GitStep<T>, f: spec_fn(T) -> V) -> GitStepV<V> {
    match s {
        GitStep::Run(c) => GitStepV::Run(c@),
        GitStep::RunGh(c) => GitStepV::RunGh(c@),
        GitStep::PickDir { root, slug } => GitStepV::PickDir { root: root@, slug: slug@ },
        GitStep::Stuck => GitStepV::Stuck,
        GitStep::Done(v) => GitStepV::Done(f(v)),
    }
}

pub open spec fn as_opt() -> spec_fn(Option<String>) -> Option<Seq<char>> {
    |o: Option<String>| opt_text(o)
}

pub open spec fn as_text() -> spec_fn(String) -> Seq<char> {
    |s: String| s@
}

pub open spec fn as_unit() -> spec_fn(Result<(), String>) -> Result<(), Seq<char>> {
    |r: Result<(), String>| crate::text::unit_result(r)
}

pub open spec fn as_json() -> spec_fn(Result<Json, String>) -> Result<JsonV, Seq<char>> {
    |r: Result<Json, String>| crate::commands::json_result(r)
}

pub open spec fn out_views(v: Seq<GitOut>) -> Seq<OutV> {
    v.map_values(|o: GitOut| o@)
}

/// Only whether a run succeeded matters.
pub open spec fn succeeded(o: OutV) -> Result<(), Seq<char>> {
    match checked_of(o) {
        Ok(_) => Ok(()),
        Err(e) => Err(e),
    }
}

pub fn outcome(o: &GitOut) -> (r: Result<(), String>)
    ensures
        crate::text::unit_result(r) == succeeded(o@),
{
    match checked(o) {
        Ok(_) => Ok(()),
        Err(e) => Err(e),
    }
}

/// The output of a run as it is; empty when it failed.
pub open spec fn raw_of(o: OutV) -> Seq<char> {
    if o.code == 0 {
        o.stdout
    } else {
        Seq::empty()
    }
}

pub fn raw(o: &GitOut) -> (r: String)
    ensures
        r@ == raw_of(o@),
{
    if o.code == 0 {
        o.stdout.clone()
    } else {
        let none = String::new();
        assert(none@ =~= Seq::<char>::empty());
        none
    }
}

fn is_quiet(o: &GitOut) -> (r: bool)
    ensures
        r == (quiet_of(o@).len() == 0),
{
    quiet(o).as_str().is_empty()
}

// ---------------------------------------------------------------------------
// Questions
// ---------------------------------------------------------------------------

/// Runs one command after the other until one prints something: which it was,
/// and what it printed.
pub open spec fn first_to_print(commands: Seq<CommandV>, outs: Seq<OutV>, i: nat) -> QueryV<
    Option<(nat, Seq<char>)>,
>
    decreases commands.len() - i,
{
    if i >= commands.len() {
        QueryV::Known { value: None, used: commands.len() }
    } else if i >= outs.len() {
        QueryV::Ask(commands[i as int])
    } else if quiet_of(outs[i as int]).len() > 0 {
        QueryV::Known { value: Some((i, quiet_of(outs[i as int]))), used: i + 1 }
    } else {
        first_to_print(commands, outs, i + 1)
    }
}

pub open spec fn command_views(v: Seq<Command>) -> Seq<CommandV> {
    v.map_values(|c: Command| c@)
}

pub open spec fn as_printed() -> spec_fn(Option<(usize, String)>) -> Option<(nat, Seq<char>)> {
    |o: Option<(usize, String)>|
        match o {
            Some((i, s)) => Some((i as nat, s@)),
            None => None,
        }
}

fn ask_each(commands: Vec<Command>, outs: &Vec<GitOut>, at: usize) -> (r: Query<
    Option<(usize, String)>,
>)
    requires
        at <= outs@.len(),
    ensures
        query_view(r, as_printed()) == first_to_print(
            command_views(commands@),
            out_views(outs@).skip(at as int),
            0,
        ),
        r is Known ==> r->used <= outs@.len() - at,
{
    let ghost cs = command_views(commands@);
    let ghost os = out_views(outs@).skip(at as int);
    let mut i: usize = 0;
    while i < commands.len()
        invariant
            i <= commands@.len(),
            at <= outs@.len(),
            i <= outs@.len() - at,
            cs == command_views(commands@),
            os == out_views(outs@).skip(at as int),
            first_to_print(cs, os, 0) == first_to_print(cs, os, i as nat),
        decreases commands@.len() - i,
    {
        if i >= outs.len() - at {
            let mut commands = commands;
            let c = commands.remove(i);
            assert(c@ == cs[i as int]);
            return Query::Ask(c);
        }
        assert(os[i as int] == outs@[at + i]@);
        let printed = quiet(&outs[at + i]);
        if !printed.as_str().is_empty() {
            return Query::Known { value: Some((i, printed)), used: i + 1 };
        }
        i += 1;
    }
    Query::Known { value: None, used: i }
}

pub open spec fn remote_head(cwd: Seq<char>) -> CommandV {
    CommandV { cwd, args: seq!["rev-parse"@, "--abbrev-ref"@, "origin/HEAD"@] }
}

fn ask_remote_head(cwd: &str) -> (r: Command)
    ensures
        r@ == remote_head(cwd@),
{
    Command::at(cwd).arg("rev-parse").arg("--abbrev-ref").arg("origin/HEAD")
}

pub open spec fn verify_ref(cwd: Seq<char>, name: Seq<char>) -> CommandV {
    CommandV { cwd, args: seq!["rev-parse"@, "--verify"@, "--quiet"@, name] }
}

fn ask_ref(cwd: &str, name: &str) -> (r: Command)
    ensures
        r@ == verify_ref(cwd@, name@),
{
    Command::at(cwd).arg("rev-parse").arg("--verify").arg("--quiet").arg(name)
}

/// The usual trunks, in the order in which they are looked for.
pub open spec fn trunk_refs(cwd: Seq<char>) -> Seq<CommandV> {
    seq![
        verify_ref(cwd, "refs/heads/main"@),
        verify_ref(cwd, "refs/heads/master"@),
        verify_ref(cwd, "refs/remotes/origin/main"@),
        verify_ref(cwd, "refs/remotes/origin/master"@),
    ]
}

/// The name of a repository's default branch: that of the remote when it is
/// known, else the first of the usual trunks that there is.
pub open spec fn trunk_of(cwd: Seq<char>, outs: Seq<OutV>) -> QueryV<Option<Seq<char>>> {
    if outs.len() == 0 {
        QueryV::Ask(remote_head(cwd))
    } else {
        let head = quiet_of(outs[0]);
        if head.len() > 0 && head != "origin/HEAD"@ {
            QueryV::Known { value: Some(short_ref(head, "origin/"@)), used: 1 }
        } else {
            match first_to_print(trunk_refs(cwd), outs.skip(1), 0) {
                QueryV::Ask(c) => QueryV::Ask(c),
                QueryV::Known { value: None, used } => QueryV::Known { value: None, used: used + 1 },
                QueryV::Known { value: Some((i, _)), used } => QueryV::Known {
                    value: Some(
                        if i == 0 || i == 2 {
                            "main"@
                        } else {
                            "master"@
                        },
                    ),
                    used: used + 1,
                },
            }
        }
    }
}

fn ask_trunks(cwd: &str) -> (r: Vec<Command>)
    ensures
        command_views(r@) == trunk_refs(cwd@),
{
    let mut v: Vec<Command> = Vec::new();
    v.push(ask_ref(cwd, "refs/heads/main"));
    v.push(ask_ref(cwd, "refs/heads/master"));
    v.push(ask_ref(cwd, "refs/remotes/origin/main"));
    v.push(ask_ref(cwd, "refs/remotes/origin/master"));
    assert(command_views(v@) =~= trunk_refs(cwd@));
    v
}

pub fn default_branch_name(cwd: &str, outs: &Vec<GitOut>, at: usize) -> (r: Query<Option<String>>)
    requires
        at <= outs@.len(),
    ensures
        query_view(r, as_opt()) == trunk_of(cwd@, out_views(outs@).skip(at as int)),
        r is Known ==> r->used <= outs@.len() - at,
{
    let ghost os = out_views(outs@).skip(at as int);
    if at == outs.len() {
        return Query::Ask(ask_remote_head(cwd));
    }
    assert(os[0] == outs@[at as int]@);
    let head = quiet(&outs[at]);
    if !head.as_str().is_empty() && !same(&head, "origin/HEAD") {
        return Query::Known { value: Some(strip_all_prefixes(&head, "origin/")), used: 1 };
    }
    assert(os.skip(1) =~= out_views(outs@).skip(at + 1));
    match ask_each(ask_trunks(cwd), outs, at + 1) {
        Query::Ask(c) => Query::Ask(c),
        Query::Known { value: None, used } => Query::Known { value: None, used: used + 1 },
        Query::Known { value: Some((i, _)), used } => {
            let name = if i == 0 || i == 2 {
                "main".to_string()
            } else {
                "master".to_string()
            };
            Query::Known { value: Some(name), used: used + 1 }
        },
    }
}

pub open spec fn merge_base(cwd: Seq<char>, name: Seq<char>) -> CommandV {
    CommandV { cwd, args: seq!["merge-base"@, "HEAD"@, name] }
}

fn ask_merge_base(cwd: &str, name: &str) -> (r: Command)
    ensures
        r@ == merge_base(cwd@, name@),
{
    Command::at(cwd).arg("merge-base").arg("HEAD").arg(name)
}

/// What a branch may have left from: the remote's default branch when it is
/// known, then the usual trunks.
pub open spec fn base_candidates(cwd: Seq<char>, head: Seq<char>) -> Seq<CommandV> {
    (if head.len() > 0 {
        seq![merge_base(cwd, head)]
    } else {
        seq![]
    }) + seq![
        merge_base(cwd, "origin/main"@),
        merge_base(cwd, "origin/master"@),
        merge_base(cwd, "main"@),
        merge_base(cwd, "master"@),
    ]
}

/// The commit at which the current branch left the trunk.
pub open spec fn base_of(cwd: Seq<char>, outs: Seq<OutV>) -> QueryV<Option<Seq<char>>> {
    if outs.len() == 0 {
        QueryV::Ask(remote_head(cwd))
    } else {
        match first_to_print(base_candidates(cwd, quiet_of(outs[0])), outs.skip(1), 0) {
            QueryV::Ask(c) => QueryV::Ask(c),
            QueryV::Known { value: None, used } => QueryV::Known { value: None, used: used + 1 },
            QueryV::Known { value: Some((_, s)), used } => QueryV::Known {
                value: Some(s),
                used: used + 1,
            },
        }
    }
}

fn ask_bases(cwd: &str, head: &str) -> (r: Vec<Command>)
    ensures
        command_views(r@) == base_candidates(cwd@, head@),
{
    let mut v: Vec<Command> = Vec::new();
    if !head.is_empty() {
        v.push(ask_merge_base(cwd, head));
    }
    v.push(ask_merge_base(cwd, "origin/main"));
    v.push(ask_merge_base(cwd, "origin/master"));
    v.push(ask_merge_base(cwd, "main"));
    v.push(ask_merge_base(cwd, "master"));
    assert(command_views(v@) =~= base_candidates(cwd@, head@));
    v
}

pub fn branch_base(cwd: &str, outs: &Vec<GitOut>, at: usize) -> (r: Query<Option<String>>)
    requires
        at <= outs@.len(),
    ensures
        query_view(r, as_opt()) == base_of(cwd@, out_views(outs@).skip(at as int)),
        r is Known ==> r->used <= outs@.len() - at,
{
    let ghost os = out_views(outs@).skip(at as int);
    if at == outs.len() {
        return Query::Ask(ask_remote_head(cwd));
    }
    assert(os[0] == outs@[at as int]@);
    let head = quiet(&outs[at]);
    assert(os.skip(1) =~= out_views(outs@).skip(at + 1));
    match ask_each(ask_bases(cwd, &head), outs, at + 1) {
        Query::Ask(c) => Query::Ask(c),
        Query::Known { value: None, used } => Query::Known { value: None, used: used + 1 },
        Query::Known { value: Some((_, s)), used } => Query::Known {
            value: Some(s),
            used: used + 1,
        },
    }
}

/// Whether the current branch has an upstream is what this prints.
pub open spec fn upstream_name(cwd: Seq<char>) -> CommandV {
    CommandV {
        cwd,
        args: seq!["rev-parse"@, "--abbrev-ref"@, "--symbolic-full-name"@, "@{u}"@],
    }
}

pub open spec fn current_branch_name(cwd: Seq<char>) -> CommandV {
    CommandV { cwd, args: seq!["symbolic-ref"@, "--short"@, "HEAD"@] }
}

pub open spec fn plain_push(cwd: Seq<char>) -> CommandV {
    CommandV { cwd, args: seq!["push"@] }
}

pub open spec fn first_push(cwd: Seq<char>, branch: Seq<char>) -> CommandV {
    CommandV { cwd, args: seq!["push"@, "-u"@, "origin"@, branch] }
}

/// Pushes the current branch: to its upstream, or to `origin` when it has none.
/// With a detached head there is nothing to push.
pub open spec fn push_of(cwd: Seq<char>, outs: Seq<OutV>) -> QueryV<Result<(), Seq<char>>> {
    if outs.len() == 0 {
        QueryV::Ask(upstream_name(cwd))
    } else if quiet_of(outs[0]).len() > 0 {
        if outs.len() == 1 {
            QueryV::Ask(plain_push(cwd))
        } else {
            QueryV::Known { value: succeeded(outs[1]), used: 2 }
        }
    } else if outs.len() == 1 {
        QueryV::Ask(current_branch_name(cwd))
    } else if quiet_of(outs[1]).len() == 0 {
        QueryV::Known { value: Ok(()), used: 2 }
    } else if outs.len() == 2 {
        QueryV::Ask(first_push(cwd, quiet_of(outs[1])))
    } else {
        QueryV::Known { value: succeeded(outs[2]), used: 3 }
    }
}

pub fn review_push_impl(cwd: &str, outs: &Vec<GitOut>, at: usize) -> (r: Query<Result<(), String>>)
    requires
        at <= outs@.len(),
    ensures
        query_view(r, as_unit()) == push_of(cwd@, out_views(outs@).skip(at as int)),
        r is Known ==> r->used <= outs@.len() - at,
{
    let ghost os = out_views(outs@).skip(at as int);
    let n: usize = outs.len() - at;
    if n == 0 {
        return Query::Ask(
            Command::at(cwd).arg("rev-parse").arg("--abbrev-ref").arg("--symbolic-full-name").arg(
                "@{u}",
            ),
        );
    }
    assert(os[0] == outs@[at as int]@);
    if !is_quiet(&outs[at]) {
        if n == 1 {
            return Query::Ask(Command::at(cwd).arg("push"));
        }
        assert(os[1] == outs@[at + 1]@);
        return Query::Known { value: outcome(&outs[at + 1]), used: 2 };
    }
    if n == 1 {
        return Query::Ask(Command::at(cwd).arg("symbolic-ref").arg("--short").arg("HEAD"));
    }
    assert(os[1] == outs@[at + 1]@);
    let branch = quiet(&outs[at + 1]);
    if branch.as_str().is_empty() {
        return Query::Known { value: Ok(()), used: 2 };
    }
    if n == 2 {
        return Query::Ask(Command::at(cwd).arg("push").arg("-u").arg("origin").arg(&branch));
    }
    assert(os[2] == outs@[at + 2]@);
    Query::Known { value: outcome(&outs[at + 2]), used: 3 }
}

/// A command that ends with the outcome of a question.
pub open spec fn settle<V>(q: QueryV<V>) -> GitStepV<V> {
    match q {
        QueryV::Ask(c) => GitStepV::Run(c),
        QueryV::Known { value, .. } => GitStepV::Done(value),
    }
}

// ---------------------------------------------------------------------------
// Review commands
// ---------------------------------------------------------------------------

/// Runs one command that has to succeed.
pub open spec fn one_run(c: CommandV, outs: Seq<OutV>) -> GitStepV<Result<(), Seq<char>>> {
    if outs.len() == 0 {
        GitStepV::Run(c)
    } else {
        GitStepV::Done(succeeded(outs[0]))
    }
}

fn run_once(c: Command, outs: &Vec<GitOut>) -> (r: GitStep<Result<(), String>>)
    ensures
        step_view(r, as_unit()) == one_run(c@, out_views(outs@)),
{
    if outs.len() == 0 {
        GitStep::Run(c)
    } else {
        assert(out_views(outs@)[0] == outs@[0]@);
        GitStep::Done(outcome(&outs[0]))
    }
}

pub open spec fn stage_command(cwd: Seq<char>, file: Option<Seq<char>>) -> CommandV {
    CommandV {
        cwd,
        args: match file {
            Some(f) => seq!["add"@, "--"@, f],
            None => seq!["add"@, "-A"@],
        },
    }
}

/// Stages a file, or everything.
pub fn git_review_stage(repo_path: &str, file_path: &Option<String>, outs: &Vec<GitOut>) -> (r:
    GitStep<Result<(), String>>)
    ensures
        step_view(r, as_unit()) == one_run(
            stage_command(repo_path@, opt_text(*file_path)),
            out_views(outs@),
        ),
{
    let c = match file_path {
        Some(f) => Command::at(repo_path).arg("add").arg("--").arg(f),
        None => Command::at(repo_path).arg("add").arg("-A"),
    };
    run_once(c, outs)
}

pub open spec fn unstage_command(cwd: Seq<char>, file: Option<Seq<char>>) -> CommandV {
    CommandV {
        cwd,
        args: match file {
            Some(f) => seq!["reset"@, "-q"@, "HEAD"@, "--"@, f],
            None => seq!["reset"@, "-q"@, "HEAD"@],
        },
    }
}

/// Unstages a file, or everything.
pub fn git_review_unstage(repo_path: &str, file_path: &Option<String>, outs: &Vec<GitOut>) -> (r:
    GitStep<Result<(), String>>)
    ensures
        step_view(r, as_unit()) == one_run(
            unstage_command(repo_path@, opt_text(*file_path)),
            out_views(outs@),
        ),
{
    let c = match file_path {
        Some(f) => Command::at(repo_path).arg("reset").arg("-q").arg("HEAD").arg("--").arg(f),
        None => Command::at(repo_path).arg("reset").arg("-q").arg("HEAD"),
    };
    run_once(c, outs)
}

/// Restores a file, or everything: what is tracked from the last commit, what is
/// not tracked by removing it.
pub open spec fn revert_commands(cwd: Seq<char>, file: Option<Seq<char>>) -> (CommandV, CommandV) {
    match file {
        Some(f) => (
            CommandV { cwd, args: seq!["checkout"@, "HEAD"@, "--"@, f] },
            CommandV { cwd, args: seq!["clean"@, "-fd"@, "--"@, f] },
        ),
        None => (
            CommandV { cwd, args: seq!["checkout"@, "HEAD"@, "--"@, "."@] },
            CommandV { cwd, args: seq!["clean"@, "-fd"@] },
        ),
    }
}

/// What reverting comes to. What is not tracked cannot be checked out and what is
/// tracked is not cleaned, so it fails only where neither run succeeds, as
/// outside a repository.
pub open spec fn reverted(restored: OutV, cleaned: OutV) -> Result<(), Seq<char>> {
    if restored.code == 0 {
        Ok(())
    } else {
        succeeded(cleaned)
    }
}

/// The runs of a revert.
pub open spec fn revert_of(cwd: Seq<char>, file: Option<Seq<char>>, outs: Seq<OutV>) -> GitStepV<
    Result<(), Seq<char>>,
> {
    let c = revert_commands(cwd, file);
    if outs.len() == 0 {
        GitStepV::Run(c.0)
    } else if outs.len() == 1 {
        GitStepV::Run(c.1)
    } else {
        GitStepV::Done(reverted(outs[0], outs[1]))
    }
}

/// Both runs are made, whatever comes of the first.
pub fn git_review_revert(repo_path: &str, file_path: &Option<String>, outs: &Vec<GitOut>) -> (r:
    GitStep<Result<(), String>>)
    ensures
        step_view(r, as_unit()) == revert_of(repo_path@, opt_text(*file_path), out_views(outs@)),
{
    if outs.len() == 0 {
        let c = match file_path {
            Some(f) => Command::at(repo_path).arg("checkout").arg("HEAD").arg("--").arg(f),
            None => Command::at(repo_path).arg("checkout").arg("HEAD").arg("--").arg("."),
        };
        GitStep::Run(c)
    } else if outs.len() == 1 {
        let c = match file_path {
            Some(f) => Command::at(repo_path).arg("clean").arg("-fd").arg("--").arg(f),
            None => Command::at(repo_path).arg("clean").arg("-fd"),
        };
        GitStep::Run(c)
    } else if outs[0].code == 0 {
        GitStep::Done(Ok(()))
    } else {
        GitStep::Done(outcome(&outs[1]))
    }
}

/// The commit that a reference stands for; `HEAD` where none is given.
pub open spec fn rev_parse_of(cwd: Seq<char>, reference: Option<Seq<char>>, outs: Seq<OutV>) -> GitStepV<
    Option<Seq<char>>,
> {
    if outs.len() == 0 {
        GitStepV::Run(
            CommandV {
                cwd,
                args: seq![
                    "rev-parse"@,
                    match reference {
                        Some(n) => n,
                        None => "HEAD"@,
                    },
                ],
            },
        )
    } else {
        let s = quiet_of(outs[0]);
        GitStepV::Done(
            if s.len() == 0 {
                None
            } else {
                Some(s)
            },
        )
    }
}

/// The commit that a reference stands for.
pub fn git_review_rev_parse(repo_path: &str, reference: &Option<String>, outs: &Vec<GitOut>) -> (r:
    GitStep<Option<String>>)
    ensures
        step_view(r, as_opt()) == rev_parse_of(
            repo_path@,
            opt_text(*reference),
            out_views(outs@),
        ),
{
    if outs.len() == 0 {
        let c = match reference {
            Some(n) => Command::at(repo_path).arg("rev-parse").arg(n),
            None => Command::at(repo_path).arg("rev-parse").arg("HEAD"),
        };
        return GitStep::Run(c);
    }
    let s = quiet(&outs[0]);
    if s.as_str().is_empty() {
        GitStep::Done(None)
    } else {
        GitStep::Done(Some(s))
    }
}

/// Pushes the current branch.
pub fn git_review_push(repo_path: &str, outs: &Vec<GitOut>) -> (r: GitStep<Result<(), String>>)
    ensures
        step_view(r, as_unit()) == settle(push_of(repo_path@, out_views(outs@))),
{
    assert(out_views(outs@).skip(0) =~= out_views(outs@));
    match review_push_impl(repo_path, outs, 0) {
        Query::Ask(c) => GitStep::Run(c),
        Query::Known { value, .. } => GitStep::Done(value),
    }
}

pub open spec fn staged_names(cwd: Seq<char>) -> CommandV {
    CommandV { cwd, args: seq!["diff"@, "--cached"@, "--name-only"@] }
}

pub open spec fn commit_command(cwd: Seq<char>, message: Seq<char>) -> CommandV {
    CommandV { cwd, args: seq!["commit"@, "-m"@, message] }
}

/// The commit itself, and the push after it.
pub open spec fn commit_then_push(
    cwd: Seq<char>,
    message: Seq<char>,
    push: bool,
    outs: Seq<OutV>,
) -> GitStepV<Result<(), Seq<char>>> {
    if outs.len() == 0 {
        GitStepV::Run(commit_command(cwd, message))
    } else {
        match succeeded(outs[0]) {
            Err(e) => GitStepV::Done(Err(e)),
            Ok(_) => if push {
                settle(push_of(cwd, outs.skip(1)))
            } else {
                GitStepV::Done(Ok(()))
            },
        }
    }
}

/// Commits what is staged; where nothing is, everything is staged first. The
/// first run that fails ends it.
pub open spec fn commit_of(
    cwd: Seq<char>,
    message: Seq<char>,
    push: bool,
    outs: Seq<OutV>,
) -> GitStepV<Result<(), Seq<char>>> {
    if outs.len() == 0 {
        GitStepV::Run(staged_names(cwd))
    } else if quiet_of(outs[0]).len() > 0 {
        commit_then_push(cwd, message, push, outs.skip(1))
    } else if outs.len() == 1 {
        GitStepV::Run(stage_command(cwd, None))
    } else {
        match succeeded(outs[1]) {
            Err(e) => GitStepV::Done(Err(e)),
            Ok(_) => commit_then_push(cwd, message, push, outs.skip(2)),
        }
    }
}

fn finish_commit(cwd: &str, message: &str, push: bool, outs: &Vec<GitOut>, at: usize) -> (r:
    GitStep<Result<(), String>>)
    requires
        at <= outs@.len(),
    ensures
        step_view(r, as_unit()) == commit_then_push(
            cwd@,
            message@,
            push,
            out_views(outs@).skip(at as int),
        ),
{
    let ghost os = out_views(outs@).skip(at as int);
    if at == outs.len() {
        return GitStep::Run(Command::at(cwd).arg("commit").arg("-m").arg(message));
    }
    assert(os[0] == outs@[at as int]@);
    if let Err(e) = outcome(&outs[at]) {
        return GitStep::Done(Err(e));
    }
    if !push {
        return GitStep::Done(Ok(()));
    }
    assert(os.skip(1) =~= out_views(outs@).skip(at + 1));
    match review_push_impl(cwd, outs, at + 1) {
        Query::Ask(c) => GitStep::Run(c),
        Query::Known { value, .. } => GitStep::Done(value),
    }
}

pub fn git_review_commit(repo_path: &str, message: &str, push: bool, outs: &Vec<GitOut>) -> (r:
    GitStep<Result<(), String>>)
    ensures
        step_view(r, as_unit()) == commit_of(repo_path@, message@, push, out_views(outs@)),
{
    let ghost os = out_views(outs@);
    if outs.len() == 0 {
        return GitStep::Run(
            Command::at(repo_path).arg("diff").arg("--cached").arg("--name-only"),
        );
    }
    assert(os[0] == outs@[0]@);
    if !is_quiet(&outs[0]) {
        return finish_commit(repo_path, message, push, outs, 1);
    }
    if outs.len() == 1 {
        return GitStep::Run(Command::at(repo_path).arg("add").arg("-A"));
    }
    assert(os[1] == outs@[1]@);
    if let Err(e) = outcome(&outs[1]) {
        return GitStep::Done(Err(e));
    }
    finish_commit(repo_path, message, push, outs, 2)
}

/// Whatever comes of the outputs, a commit is made before anything is pushed:
/// no run is a push while the commit has not succeeded.
pub proof fn law_nothing_is_pushed_before_the_commit(
    cwd: Seq<char>,
    message: Seq<char>,
    push: bool,
    outs: Seq<OutV>,
)
    requires
        commit_of(cwd, message, push, outs) matches GitStepV::Run(c) && c.args[0] == "push"@,
    ensures
        push,
        exists|i: int|
            1 <= i < outs.len() && commit_of(cwd, message, push, outs.take(i)) == GitStepV::<
                Result<(), Seq<char>>,
            >::Run(commit_command(cwd, message)) && succeeded(#[trigger] outs[i]) is Ok,
{
    reveal_strlit("push");
    reveal_strlit("diff");
    reveal_strlit("add");
    reveal_strlit("commit");
    assert("diff"@[0] != "push"@[0] && "add"@[0] != "push"@[0] && "commit"@[0] != "push"@[0]);
    assert(staged_names(cwd).args[0] == "diff"@);
    assert(stage_command(cwd, None).args[0] == "add"@);
    assert(commit_command(cwd, message).args[0] == "commit"@);
    let i = if quiet_of(outs[0]).len() > 0 {
        1int
    } else {
        2int
    };
    let t = outs.take(i);
    assert(t[0] == outs[0]);
    if i == 2 {
        assert(t[1] == outs[1]);
    }
    assert(t.skip(i).len() == 0);
    assert(outs.skip(i)[0] == outs[i]);
}

/// The diff of one file against the last commit; an untracked file is shown as
/// all new.
pub open spec fn file_diff_of(cwd: Seq<char>, file: Seq<char>, outs: Seq<OutV>) -> GitStepV<
    Seq<char>,
> {
    if outs.len() == 0 {
        GitStepV::Run(CommandV { cwd, args: seq!["diff"@, "HEAD"@, "--"@, file] })
    } else if quiet_of(outs[0]).len() > 0 {
        GitStepV::Done(quiet_of(outs[0]))
    } else if outs.len() == 1 {
        GitStepV::Run(CommandV { cwd, args: seq!["status"@, "--porcelain"@, "--"@, file] })
    } else if !starts(quiet_of(outs[1]), "??"@) {
        GitStepV::Done(Seq::empty())
    } else if outs.len() == 2 {
        GitStepV::Run(all_new(cwd, file))
    } else {
        GitStepV::Done(outs[2].stdout)
    }
}

/// A diff against nothing.
pub open spec fn all_new(cwd: Seq<char>, file: Seq<char>) -> CommandV {
    CommandV { cwd, args: seq!["diff"@, "--no-index"@, "--"@, "/dev/null"@, file] }
}

fn ask_all_new(cwd: &str, file: &str) -> (r: Command)
    ensures
        r@ == all_new(cwd@, file@),
{
    Command::at(cwd).arg("diff").arg("--no-index").arg("--").arg("/dev/null").arg(file)
}

pub fn file_diff(repo_path: &str, file_path: &str, outs: &Vec<GitOut>) -> (r: GitStep<String>)
    ensures
        step_view(r, as_text()) == file_diff_of(repo_path@, file_path@, out_views(outs@)),
{
    let ghost os = out_views(outs@);
    if outs.len() == 0 {
        return GitStep::Run(Command::at(repo_path).arg("diff").arg("HEAD").arg("--").arg(file_path));
    }
    assert(os[0] == outs@[0]@);
    let head = quiet(&outs[0]);
    if !head.as_str().is_empty() {
        return GitStep::Done(head);
    }
    if outs.len() == 1 {
        return GitStep::Run(
            Command::at(repo_path).arg("status").arg("--porcelain").arg("--").arg(file_path),
        );
    }
    assert(os[1] == outs@[1]@);
    if !starts_with(&quiet(&outs[1]), "??") {
        let none = String::new();
        assert(none@ =~= Seq::<char>::empty());
        return GitStep::Done(none);
    }
    if outs.len() == 2 {
        return GitStep::Run(ask_all_new(repo_path, file_path));
    }
    assert(os[2] == outs@[2]@);
    GitStep::Done(outs[2].stdout.clone())
}

/// A diff of one file, limited by one more argument.
pub open spec fn file_diff_with(cwd: Seq<char>, limit: Seq<char>, file: Seq<char>) -> CommandV {
    CommandV { cwd, args: seq!["diff"@, limit, "--"@, file] }
}

pub open spec fn one_diff(c: CommandV, outs: Seq<OutV>) -> GitStepV<Seq<char>> {
    if outs.len() == 0 {
        GitStepV::Run(c)
    } else {
        GitStepV::Done(raw_of(outs[0]))
    }
}

fn diff_once(c: Command, outs: &Vec<GitOut>, at: usize) -> (r: GitStep<String>)
    requires
        at <= outs@.len(),
    ensures
        step_view(r, as_text()) == one_diff(c@, out_views(outs@).skip(at as int)),
{
    if at == outs.len() {
        GitStep::Run(c)
    } else {
        assert(out_views(outs@).skip(at as int)[0] == outs@[at as int]@);
        GitStep::Done(raw(&outs[at]))
    }
}

/// The diff of one file in a review. Without a base there is none.
pub open spec fn review_diff_of(
    cwd: Seq<char>,
    file: Seq<char>,
    scope: Seq<char>,
    base_ref: Option<Seq<char>>,
    staged: bool,
    outs: Seq<OutV>,
) -> GitStepV<Seq<char>> {
    if scope == "branch"@ {
        match base_of(cwd, outs) {
            QueryV::Ask(c) => GitStepV::Run(c),
            QueryV::Known { value: None, .. } => GitStepV::Done(Seq::empty()),
            QueryV::Known { value: Some(b), used } => one_diff(
                file_diff_with(cwd, b + "...HEAD"@, file),
                outs.skip(used as int),
            ),
        }
    } else if scope == "lastTurn"@ {
        match base_ref {
            None => GitStepV::Done(Seq::empty()),
            Some(b) => one_diff(file_diff_with(cwd, b, file), outs),
        }
    } else if staged {
        one_diff(file_diff_with(cwd, "--cached"@, file), outs)
    } else if outs.len() == 0 {
        GitStepV::Run(CommandV { cwd, args: seq!["diff"@, "--"@, file] })
    } else if trimmed(raw_of(outs[0])).len() > 0 {
        GitStepV::Done(raw_of(outs[0]))
    } else if outs.len() == 1 {
        GitStepV::Run(all_new(cwd, file))
    } else {
        GitStepV::Done(outs[1].stdout)
    }
}

fn ask_diff_with(cwd: &str, limit: &str, file: &str) -> (r: Command)
    ensures
        r@ == file_diff_with(cwd@, limit@, file@),
{
    Command::at(cwd).arg("diff").arg(limit).arg("--").arg(file)
}

fn nothing() -> (r: GitStep<String>)
    ensures
        step_view(r, as_text()) == GitStepV::<Seq<char>>::Done(Seq::empty()),
{
    let none = String::new();
    assert(none@ =~= Seq::<char>::empty());
    GitStep::Done(none)
}

pub fn git_review_diff(
    repo_path: &str,
    file_path: &str,
    scope: &str,
    base_ref: &Option<String>,
    staged: Option<bool>,
    outs: &Vec<GitOut>,
) -> (r: GitStep<String>)
    ensures
        step_view(r, as_text()) == review_diff_of(
            repo_path@,
            file_path@,
            scope@,
            opt_text(*base_ref),
            staged == Some(true),
            out_views(outs@),
        ),
{
    let ghost os = out_views(outs@);
    assert(os.skip(0) =~= os);
    if same(scope, "branch") {
        return match branch_base(repo_path, outs, 0) {
            Query::Ask(c) => GitStep::Run(c),
            Query::Known { value: None, .. } => nothing(),
            Query::Known { value: Some(b), used } => {
                let mut range = b;
                range.append("...HEAD");
                diff_once(ask_diff_with(repo_path, &range, file_path), outs, used)
            },
        };
    }
    if same(scope, "lastTurn") {
        return match base_ref {
            None => nothing(),
            Some(b) => diff_once(ask_diff_with(repo_path, b, file_path), outs, 0),
        };
    }
    if let Some(true) = staged {
        return diff_once(ask_diff_with(repo_path, "--cached", file_path), outs, 0);
    }
    if outs.len() == 0 {
        return GitStep::Run(Command::at(repo_path).arg("diff").arg("--").arg(file_path));
    }
    assert(os[0] == outs@[0]@);
    let worktree = raw(&outs[0]);
    if !trim(&worktree).as_str().is_empty() {
        return GitStep::Done(worktree);
    }
    if outs.len() == 1 {
        return GitStep::Run(ask_all_new(repo_path, file_path));
    }
    assert(os[1] == outs@[1]@);
    GitStep::Done(outs[1].stdout.clone())
}

// ---------------------------------------------------------------------------
// Review list and commit context
// ---------------------------------------------------------------------------

pub open spec fn status_command(cwd: Seq<char>, untracked: Seq<char>) -> CommandV {
    CommandV { cwd, args: seq!["status"@, "--porcelain=v2"@, untracked] }
}

fn ask_status(cwd: &str, untracked: &str) -> (r: Command)
    ensures
        r@ == status_command(cwd@, untracked@),
{
    Command::at(cwd).arg("status").arg("--porcelain=v2").arg(untracked)
}

pub open spec fn as_list() -> spec_fn(ReviewList) -> (Seq<ReviewV>, Option<Seq<char>>) {
    |l: ReviewList| (review_views(l.files@), opt_text(l.base))
}

/// The uncommitted files.
pub open spec fn uncommitted_step(cwd: Seq<char>, outs: Seq<OutV>) -> GitStepV<
    (Seq<ReviewV>, Option<Seq<char>>),
> {
    if outs.len() == 0 {
        GitStepV::Run(status_command(cwd, "--untracked-files=normal"@))
    } else if outs.len() == 1 {
        GitStepV::Run(CommandV { cwd, args: seq!["diff"@, "--numstat"@, "--cached"@] })
    } else if outs.len() == 2 {
        GitStepV::Run(CommandV { cwd, args: seq!["diff"@, "--numstat"@] })
    } else {
        let all = uncommitted_of(
            quiet_of(outs[0]),
            file_counts(quiet_of(outs[1])),
            file_counts(quiet_of(outs[2])),
        );
        if exists|i: int| 0 <= i < all.len() && !fits(#[trigger] all[i]) {
            GitStepV::Stuck
        } else {
            GitStepV::Done((sorted_by(at_most(all, 2000), path_order()), None))
        }
    }
}

/// The files of a range of commits. The untracked files are asked for only where
/// they are wanted and there is room for them.
pub open spec fn range_step(
    cwd: Seq<char>,
    base: Seq<char>,
    range: Seq<char>,
    untracked: bool,
    outs: Seq<OutV>,
) -> GitStepV<(Seq<ReviewV>, Option<Seq<char>>)> {
    if outs.len() == 0 {
        GitStepV::Run(CommandV { cwd, args: seq!["diff"@, "--numstat"@, range] })
    } else {
        let counts = file_counts(quiet_of(outs[0]));
        if !untracked || counts.len() >= 2000 {
            GitStepV::Done((range_list_of(counts, None), Some(base)))
        } else if outs.len() == 1 {
            GitStepV::Run(status_command(cwd, "--untracked-files=normal"@))
        } else {
            GitStepV::Done((range_list_of(counts, Some(quiet_of(outs[1]))), Some(base)))
        }
    }
}

pub open spec fn in_scope_step(cwd: Seq<char>, s: ReviewScopeV, outs: Seq<OutV>) -> GitStepV<
    (Seq<ReviewV>, Option<Seq<char>>),
> {
    match s {
        ReviewScopeV::Nothing => GitStepV::Done((Seq::empty(), None)),
        ReviewScopeV::Range { base, range, with_untracked } => range_step(
            cwd,
            base,
            range,
            with_untracked,
            outs,
        ),
        ReviewScopeV::Uncommitted => uncommitted_step(cwd, outs),
    }
}

/// The changed files of a review, before the untracked ones are counted.
pub open spec fn review_list_of(
    cwd: Seq<char>,
    scope: Seq<char>,
    base_ref: Option<Seq<char>>,
    outs: Seq<OutV>,
) -> GitStepV<(Seq<ReviewV>, Option<Seq<char>>)> {
    if scope == "branch"@ {
        match base_of(cwd, outs) {
            QueryV::Ask(c) => GitStepV::Run(c),
            QueryV::Known { value, used } => in_scope_step(
                cwd,
                scope_of(scope, value, base_ref),
                outs.skip(used as int),
            ),
        }
    } else {
        in_scope_step(cwd, scope_of(scope, None, base_ref), outs)
    }
}

fn list_uncommitted(cwd: &str, outs: &Vec<GitOut>, at: usize) -> (r: GitStep<ReviewList>)
    requires
        at <= outs@.len(),
    ensures
        step_view(r, as_list()) == uncommitted_step(cwd@, out_views(outs@).skip(at as int)),
{
    let ghost os = out_views(outs@).skip(at as int);
    let n: usize = outs.len() - at;
    if n == 0 {
        return GitStep::Run(ask_status(cwd, "--untracked-files=normal"));
    }
    if n == 1 {
        return GitStep::Run(Command::at(cwd).arg("diff").arg("--numstat").arg("--cached"));
    }
    if n == 2 {
        return GitStep::Run(Command::at(cwd).arg("diff").arg("--numstat"));
    }
    assert(os[0] == outs@[at as int]@);
    assert(os[1] == outs@[at + 1]@);
    assert(os[2] == outs@[at + 2]@);
    let staged = diff_numstat_files(&quiet(&outs[at + 1]));
    let unstaged = diff_numstat_files(&quiet(&outs[at + 2]));
    match review_list_uncommitted(&quiet(&outs[at]), &staged, &unstaged) {
        Some(files) => GitStep::Done(ReviewList { files, base: None }),
        None => GitStep::Stuck,
    }
}

fn list_range(
    cwd: &str,
    base: String,
    range: &str,
    untracked: bool,
    outs: &Vec<GitOut>,
    at: usize,
) -> (r: GitStep<ReviewList>)
    requires
        at <= outs@.len(),
    ensures
        step_view(r, as_list()) == range_step(
            cwd@,
            base@,
            range@,
            untracked,
            out_views(outs@).skip(at as int),
        ),
{
    let ghost os = out_views(outs@).skip(at as int);
    let n: usize = outs.len() - at;
    if n == 0 {
        return GitStep::Run(Command::at(cwd).arg("diff").arg("--numstat").arg(range));
    }
    assert(os[0] == outs@[at as int]@);
    let counts = diff_numstat_files(&quiet(&outs[at]));
    assert(counts@.len() == file_counts(quiet_of(os[0])).len());
    if !untracked || counts.len() >= REVIEW_FILE_CAP {
        return GitStep::Done(
            ReviewList { files: review_list_range(&counts, &None), base: Some(base) },
        );
    }
    if n == 1 {
        return GitStep::Run(ask_status(cwd, "--untracked-files=normal"));
    }
    assert(os[1] == outs@[at + 1]@);
    let status = Some(quiet(&outs[at + 1]));
    GitStep::Done(ReviewList { files: review_list_range(&counts, &status), base: Some(base) })
}

fn list_in_scope(cwd: &str, s: ReviewScope, outs: &Vec<GitOut>, at: usize) -> (r: GitStep<
    ReviewList,
>)
    requires
        at <= outs@.len(),
    ensures
        step_view(r, as_list()) == in_scope_step(cwd@, s@, out_views(outs@).skip(at as int)),
{
    match s {
        ReviewScope::Nothing => {
            let files: Vec<ReviewFile> = Vec::new();
            assert(review_views(files@) =~= Seq::<ReviewV>::empty());
            GitStep::Done(ReviewList { files, base: None })
        },
        ReviewScope::Range { base, range, with_untracked } => list_range(
            cwd,
            base,
            &range,
            with_untracked,
            outs,
            at,
        ),
        ReviewScope::Uncommitted => list_uncommitted(cwd, outs, at),
    }
}

pub fn git_review_list(
    repo_path: &str,
    scope: &str,
    base_ref: &Option<String>,
    outs: &Vec<GitOut>,
) -> (r: GitStep<ReviewList>)
    ensures
        step_view(r, as_list()) == review_list_of(
            repo_path@,
            scope@,
            opt_text(*base_ref),
            out_views(outs@),
        ),
{
    assert(out_views(outs@).skip(0) =~= out_views(outs@));
    if same(scope, "branch") {
        return match branch_base(repo_path, outs, 0) {
            Query::Ask(c) => GitStep::Run(c),
            Query::Known { value, used } => list_in_scope(
                repo_path,
                review_scope(scope, &value, base_ref),
                outs,
                used,
            ),
        };
    }
    list_in_scope(repo_path, review_scope(scope, &None, base_ref), outs, 0)
}

pub open spec fn as_context() -> spec_fn(CommitContext) -> (Seq<char>, Seq<char>) {
    |c: CommitContext| (c.diff@, c.recent@)
}

/// What a commit message is written from: the staged diff, or the whole one when
/// nothing is staged, and the last ten subjects.
pub open spec fn commit_context_of(cwd: Seq<char>, outs: Seq<OutV>) -> GitStepV<
    (Seq<char>, Seq<char>),
> {
    if outs.len() == 0 {
        GitStepV::Run(status_command(cwd, "--untracked-files=all"@))
    } else {
        let status = quiet_of(outs[0]);
        if outs.len() == 1 {
            GitStepV::Run(
                CommandV {
                    cwd,
                    args: seq![
                        "diff"@,
                        if any_staged(entries_of(status)) {
                            "--cached"@
                        } else {
                            "HEAD"@
                        },
                    ],
                },
            )
        } else if !cuts_cleanly(raw_of(outs[1]), 120000) {
            GitStepV::Stuck
        } else if outs.len() == 2 {
            GitStepV::Run(
                CommandV { cwd, args: seq!["log"@, "-n"@, "10"@, "--pretty=format:%s"@] },
            )
        } else {
            GitStepV::Done((context_diff(raw_of(outs[1]), status), trimmed(quiet_of(outs[2]))))
        }
    }
}

pub fn git_review_commit_context(repo_path: &str, outs: &Vec<GitOut>) -> (r: GitStep<CommitContext>)
    ensures
        step_view(r, as_context()) == commit_context_of(repo_path@, out_views(outs@)),
{
    let ghost os = out_views(outs@);
    if outs.len() == 0 {
        return GitStep::Run(ask_status(repo_path, "--untracked-files=all"));
    }
    assert(os[0] == outs@[0]@);
    let status = quiet(&outs[0]);
    if outs.len() == 1 {
        let c = Command::at(repo_path).arg("diff");
        return if has_staged(&parse_status_v2_lines(&status)) {
            GitStep::Run(c.arg("--cached"))
        } else {
            GitStep::Run(c.arg("HEAD"))
        };
    }
    assert(os[1] == outs@[1]@);
    let diff = raw(&outs[1]);
    if byte_len(&diff) > 120000 && !diff.as_str().is_char_boundary(120000) {
        return GitStep::Stuck;
    }
    if outs.len() == 2 {
        return GitStep::Run(
            Command::at(repo_path).arg("log").arg("-n").arg("10").arg("--pretty=format:%s"),
        );
    }
    assert(os[2] == outs@[2]@);
    GitStep::Done(commit_context(&diff, &status, &quiet(&outs[2])))
}

// ---------------------------------------------------------------------------
// Pull requests
// ---------------------------------------------------------------------------

/// Pushes the branch, whatever comes of it, and opens a pull request.
pub open spec fn create_pr_of(cwd: Seq<char>, outs: Seq<OutV>) -> GitStepV<
    Result<JsonV, Seq<char>>,
> {
    match push_of(cwd, outs) {
        QueryV::Ask(c) => GitStepV::Run(c),
        QueryV::Known { used, .. } => {
            let rest = outs.skip(used as int);
            if rest.len() == 0 {
                GitStepV::RunGh(CommandV { cwd, args: seq!["pr"@, "create"@, "--fill"@] })
            } else if rest[0].code != 0 {
                GitStepV::Done(
                    Err("gh pr create failed (is gh installed and authenticated?)"@),
                )
            } else {
                GitStepV::Done(
                    Ok(
                        JsonV::Obj(
                            put(
                                no_fields(),
                                "url"@,
                                JsonV::Str(last_shown(split_of(trimmed(rest[0].stdout), '\n'))),
                            ),
                        ),
                    ),
                )
            }
        },
    }
}

fn one_field(key: &str, value: String) -> (r: Json)
    ensures
        r@ == JsonV::Obj(put(no_fields(), key@, JsonV::Str(value@))),
{
    broadcast use crate::json::group_json_views;

    let mut o: Vec<(String, Json)> = Vec::new();
    assert(fields(o@) =~= no_fields());
    set_field(&mut o, key, Json::Str(value));
    Json::Obj(o)
}

pub fn git_review_create_pr(repo_path: &str, outs: &Vec<GitOut>) -> (r: GitStep<
    Result<Json, String>,
>)
    ensures
        step_view(r, as_json()) == create_pr_of(repo_path@, out_views(outs@)),
{
    let ghost os = out_views(outs@);
    assert(os.skip(0) =~= os);
    match review_push_impl(repo_path, outs, 0) {
        Query::Ask(c) => GitStep::Run(c),
        Query::Known { used, .. } => {
            if used == outs.len() {
                return GitStep::RunGh(
                    Command::at(repo_path).arg("pr").arg("create").arg("--fill"),
                );
            }
            assert(os.skip(used as int)[0] == outs@[used as int]@);
            match created_pr_url(outs[used].code == 0, &outs[used].stdout) {
                Ok(url) => GitStep::Done(Ok(one_field("url", url))),
                Err(e) => GitStep::Done(Err(e)),
            }
        },
    }
}

/// Whether `gh` can be used, and the pull request of the branch.
pub open spec fn ship_of(cwd: Seq<char>, outs: Seq<OutV>, view: Option<JsonV>) -> GitStepV<
    (bool, Option<(Seq<char>, Seq<char>, i64)>),
> {
    if outs.len() == 0 {
        GitStepV::RunGh(CommandV { cwd, args: seq!["auth"@, "status"@] })
    } else if outs[0].code != 0 {
        GitStepV::Done((false, None))
    } else if outs.len() == 1 {
        GitStepV::RunGh(CommandV { cwd, args: seq!["pr"@, "view"@, "--json"@, "url,state,number"@] })
    } else if outs[1].code != 0 {
        GitStepV::Done((true, None))
    } else {
        GitStepV::Done(
            (
                true,
                match view {
                    Some(j) => pr_of(j),
                    None => None,
                },
            ),
        )
    }
}

pub open spec fn as_ship() -> spec_fn(ReviewShipInfo) -> (
    bool,
    Option<(Seq<char>, Seq<char>, i64)>,
) {
    |s: ReviewShipInfo| (s.gh_ready, pr_view(s.pr))
}

/// `view` is the value that the second run printed, when it printed one.
pub fn git_review_ship_info(repo_path: &str, outs: &Vec<GitOut>, view: &Option<Json>) -> (r: GitStep<
    ReviewShipInfo,
>)
    ensures
        step_view(r, as_ship()) == ship_of(
            repo_path@,
            out_views(outs@),
            match *view {
                Some(j) => Some(j@),
                None => None,
            },
        ),
{
    let ghost os = out_views(outs@);
    if outs.len() == 0 {
        return GitStep::RunGh(Command::at(repo_path).arg("auth").arg("status"));
    }
    assert(os[0] == outs@[0]@);
    if outs[0].code != 0 {
        return GitStep::Done(ship_info(false, view));
    }
    if outs.len() == 1 {
        return GitStep::RunGh(
            Command::at(repo_path).arg("pr").arg("view").arg("--json").arg("url,state,number"),
        );
    }
    assert(os[1] == outs@[1]@);
    if outs[1].code != 0 {
        return GitStep::Done(ship_info(true, &None));
    }
    GitStep::Done(ship_info(true, view))
}

/// The answer of a command that has nothing else to say.
pub fn ok_answer() -> (r: Json)
    ensures
        r@ == JsonV::Obj(put(no_fields(), "ok"@, JsonV::Bool(true))),
{
    broadcast use crate::json::group_json_views;

    let mut o: Vec<(String, Json)> = Vec::new();
    assert(fields(o@) =~= no_fields());
    set_field(&mut o, "ok", Json::Bool(true));
    Json::Obj(o)
}

// ---------------------------------------------------------------------------
// Branches
// ---------------------------------------------------------------------------

/// Switches to a branch.
pub open spec fn switch_of(cwd: Seq<char>, branch: Seq<char>, outs: Seq<OutV>) -> GitStepV<
    Result<JsonV, Seq<char>>,
> {
    let target = branch_chars(trimmed(branch));
    if target.len() == 0 {
        GitStepV::Done(Err("Branch name is required."@))
    } else if outs.len() == 0 {
        GitStepV::Run(CommandV { cwd, args: seq!["switch"@, target] })
    } else {
        GitStepV::Done(
            match succeeded(outs[0]) {
                Ok(_) => Ok(JsonV::Obj(put(no_fields(), "branch"@, JsonV::Str(target)))),
                Err(e) => Err(e),
            },
        )
    }
}

pub fn branch_switch(repo_path: &str, branch: &str, outs: &Vec<GitOut>) -> (r: GitStep<
    Result<Json, String>,
>)
    ensures
        step_view(r, as_json()) == switch_of(repo_path@, branch@, out_views(outs@)),
{
    let target = sanitize_branch(branch);
    if target.as_str().is_empty() {
        return GitStep::Done(Err("Branch name is required.".to_string()));
    }
    if outs.len() == 0 {
        return GitStep::Run(Command::at(repo_path).arg("switch").arg(&target));
    }
    assert(out_views(outs@)[0] == outs@[0]@);
    match outcome(&outs[0]) {
        Ok(_) => GitStep::Done(Ok(one_field("branch", target))),
        Err(e) => GitStep::Done(Err(e)),
    }
}

pub open spec fn worktrees_command(cwd: Seq<char>) -> CommandV {
    CommandV { cwd, args: seq!["worktree"@, "list"@, "--porcelain"@] }
}

pub fn ask_worktrees(cwd: &str) -> (r: Command)
    ensures
        r@ == worktrees_command(cwd@),
{
    Command::at(cwd).arg("worktree").arg("list").arg("--porcelain")
}

pub open spec fn as_worktrees() -> spec_fn(Vec<WorktreeEntry>) -> Seq<WorktreeV> {
    |v: Vec<WorktreeEntry>| worktree_views(v@)
}

/// The worktrees of a repository.
pub open spec fn worktree_list_of(cwd: Seq<char>, outs: Seq<OutV>) -> GitStepV<Seq<WorktreeV>> {
    if outs.len() == 0 {
        GitStepV::Run(worktrees_command(cwd))
    } else {
        GitStepV::Done(worktrees_of(lines_of(quiet_of(outs[0]))))
    }
}

/// The worktrees of a repository; none outside of one.
pub fn worktree_list(repo_path: &str, outs: &Vec<GitOut>) -> (r: GitStep<Vec<WorktreeEntry>>)
    ensures
        step_view(r, as_worktrees()) == worktree_list_of(repo_path@, out_views(outs@)),
{
    if outs.len() == 0 {
        return GitStep::Run(ask_worktrees(repo_path));
    }
    GitStep::Done(parse_worktrees(&quiet(&outs[0])))
}

pub open spec fn as_branches() -> spec_fn(Vec<BranchEntry>) -> Seq<BranchV> {
    |v: Vec<BranchEntry>| branch_views(v@)
}

/// The local branches, the one with the latest commit first.
pub open spec fn branches_step(cwd: Seq<char>, outs: Seq<OutV>) -> GitStepV<Seq<BranchV>> {
    if outs.len() == 0 {
        GitStepV::Run(
            CommandV {
                cwd,
                args: seq![
                    "for-each-ref"@,
                    "--format=%(refname:short)"@,
                    "--sort=-committerdate"@,
                    "refs/heads"@,
                ],
            },
        )
    } else if quiet_of(outs[0]).len() == 0 {
        GitStepV::Done(Seq::empty())
    } else if outs.len() == 1 {
        GitStepV::Run(worktrees_command(cwd))
    } else {
        match trunk_of(cwd, outs.skip(2)) {
            QueryV::Ask(c) => GitStepV::Run(c),
            QueryV::Known { value, .. } => GitStepV::Done(
                crate::git::refs_of(quiet_of(outs[0])).map_values(
                    |n: Seq<char>|
                        branch_view(n, worktrees_of(lines_of(quiet_of(outs[1]))), value),
                ),
            ),
        }
    }
}

pub fn branch_list_step(repo_path: &str, outs: &Vec<GitOut>) -> (r: GitStep<Vec<BranchEntry>>)
    ensures
        step_view(r, as_branches()) == branches_step(repo_path@, out_views(outs@)),
{
    let ghost os = out_views(outs@);
    if outs.len() == 0 {
        return GitStep::Run(
            Command::at(repo_path).arg("for-each-ref").arg("--format=%(refname:short)").arg(
                "--sort=-committerdate",
            ).arg("refs/heads"),
        );
    }
    assert(os[0] == outs@[0]@);
    let refs = quiet(&outs[0]);
    if refs.as_str().is_empty() {
        let none: Vec<BranchEntry> = Vec::new();
        assert(branch_views(none@) =~= Seq::<BranchV>::empty());
        return GitStep::Done(none);
    }
    if outs.len() == 1 {
        return GitStep::Run(ask_worktrees(repo_path));
    }
    assert(os[1] == outs@[1]@);
    match default_branch_name(repo_path, outs, 2) {
        Query::Ask(c) => GitStep::Run(c),
        Query::Known { value, .. } => {
            let trees = parse_worktrees(&quiet(&outs[1]));
            let v = branch_list(&refs, &trees, &value);
            let ghost t = worktrees_of(lines_of(quiet_of(os[1])));
            assert(crate::git::refs_of(refs@).map_values(
                |n: Seq<char>| branch_view(n, worktree_views(trees@), opt_text(value)),
            ) =~= crate::git::refs_of(refs@).map_values(
                |n: Seq<char>| branch_view(n, t, opt_text(value)),
            ));
            GitStep::Done(v)
        },
    }
}

pub open spec fn as_base_branches() -> spec_fn(Vec<BaseBranchEntry>) -> Seq<BaseBranchV> {
    |v: Vec<BaseBranchEntry>| base_branch_views(v@)
}

/// The branches that new work can start from, local and remote.
pub open spec fn base_branches_step(cwd: Seq<char>, outs: Seq<OutV>) -> GitStepV<
    Seq<BaseBranchV>,
> {
    if outs.len() == 0 {
        GitStepV::Run(
            CommandV {
                cwd,
                args: seq![
                    "for-each-ref"@,
                    "--format=%(refname:short)"@,
                    "--sort=-committerdate"@,
                    "refs/heads"@,
                    "refs/remotes"@,
                ],
            },
        )
    } else if quiet_of(outs[0]).len() == 0 {
        GitStepV::Done(Seq::empty())
    } else if outs.len() == 1 {
        GitStepV::Run(
            CommandV {
                cwd,
                args: seq![
                    "symbolic-ref"@,
                    "--quiet"@,
                    "--short"@,
                    "refs/remotes/origin/HEAD"@,
                ],
            },
        )
    } else {
        match trunk_of(cwd, outs.skip(2)) {
            QueryV::Ask(c) => GitStepV::Run(c),
            QueryV::Known { value, .. } => GitStepV::Done(
                crate::git::refs_of(quiet_of(outs[0])).map_values(
                    |n: Seq<char>| base_branch_view(n, quiet_of(outs[1]), value),
                ),
            ),
        }
    }
}

pub fn base_branch_list_step(repo_path: &str, outs: &Vec<GitOut>) -> (r: GitStep<
    Vec<BaseBranchEntry>,
>)
    ensures
        step_view(r, as_base_branches()) == base_branches_step(repo_path@, out_views(outs@)),
{
    let ghost os = out_views(outs@);
    if outs.len() == 0 {
        return GitStep::Run(
            Command::at(repo_path).arg("for-each-ref").arg("--format=%(refname:short)").arg(
                "--sort=-committerdate",
            ).arg("refs/heads").arg("refs/remotes"),
        );
    }
    assert(os[0] == outs@[0]@);
    let refs = quiet(&outs[0]);
    if refs.as_str().is_empty() {
        let none: Vec<BaseBranchEntry> = Vec::new();
        assert(base_branch_views(none@) =~= Seq::<BaseBranchV>::empty());
        return GitStep::Done(none);
    }
    if outs.len() == 1 {
        return GitStep::Run(
            Command::at(repo_path).arg("symbolic-ref").arg("--quiet").arg("--short").arg(
                "refs/remotes/origin/HEAD",
            ),
        );
    }
    assert(os[1] == outs@[1]@);
    match default_branch_name(repo_path, outs, 2) {
        Query::Ask(c) => GitStep::Run(c),
        Query::Known { value, .. } => {
            let head = quiet(&outs[1]);
            let v = base_branch_list(&refs, &head, &value);
            assert(crate::git::refs_of(refs@).map_values(
                |n: Seq<char>| base_branch_view(n, head@, opt_text(value)),
            ) =~= crate::git::refs_of(refs@).map_values(
                |n: Seq<char>| base_branch_view(n, quiet_of(os[1]), opt_text(value)),
            ));
            GitStep::Done(v)
        },
    }
}

} // verus!
