//! What the flows of git commands do with what they are given: which base, which
//! branch, which directory and which file a command names, and what is answered.

use crate::git::{branch_chars, quiet_of, OutV};
use crate::git_flow::{
    base_of, commit_context_of, commit_of, create_pr_of, file_diff_of, first_to_print, one_run,
    push_of, rev_parse_of, revert_of, review_diff_of, stage_command, succeeded, switch_of, trunk_of,
    unstage_command, CommandV, GitStepV, QueryV,
};
use crate::git_review::{any_staged, entries_of, scope_of, ReviewScopeV};
use crate::git_worktree::{
    add_of, ensure_of, existing_of, made, new_worktree, place, remove_of, root_of, slug_of,
    work_body, work_branch, work_name, AddV,
};
use crate::json::{field, lemma_lookup_put, no_fields, put, JsonV};
use crate::outside::{letter_or_number, lowercase};
use crate::text::{after_prefix, contains_of, starts, trimmed, white_space};
use crate::windows::cuts_cleanly;
use vstd::prelude::*;

verus! {

// ---------------------------------------------------------------------------
// Worktrees for new work
// ---------------------------------------------------------------------------

/// A base that is given is the one that the new branch starts from: the command
/// that makes the worktree is the one without a base, followed by that base. One
/// of `origin` is not tracked, and only such a one has `--no-track` before it.
pub proof fn law_new_work_starts_at_its_base(
    root: Seq<char>,
    branch: Seq<char>,
    dir: Seq<char>,
    base: Seq<char>,
)
    ensures
        ({
            let plain = new_worktree(root, branch, dir, None);
            let based = new_worktree(root, branch, dir, Some(base));
            &&& plain.cwd == root && based.cwd == root
            &&& plain.args == seq!["worktree"@, "add"@, "-b"@, branch, dir]
            &&& based.args.last() == base
            &&& plain.args.is_prefix_of(based.args)
            &&& (exists|rest: Seq<char>| base == #[trigger] ("origin/"@ + rest)) ==> based.args.len()
                == plain.args.len() + 2 && based.args[plain.args.len() as int] == "--no-track"@
            &&& !(exists|rest: Seq<char>| base == #[trigger] ("origin/"@ + rest))
                ==> based.args.len() == plain.args.len() + 1
        }),
{
    lemma_origin(base);
    let plain = new_worktree(root, branch, dir, None);
    let based = new_worktree(root, branch, dir, Some(base));
    assert(based.args.take(plain.args.len() as int) =~= plain.args);
}

proof fn lemma_origin(base: Seq<char>)
    ensures
        starts(base, "origin/"@) <==> exists|rest: Seq<char>| base == #[trigger] ("origin/"@ + rest),
        forall|rest: Seq<char>|
            #[trigger] after_prefix("origin/"@ + rest, "origin/"@) == Some(rest),
{
    let n = "origin/"@.len() as int;
    if starts(base, "origin/"@) {
        assert(base =~= "origin/"@ + base.skip(n));
    }
    assert forall|rest: Seq<char>|
        #[trigger] after_prefix("origin/"@ + rest, "origin/"@) == Some(rest) by {
        assert(("origin/"@ + rest).take(n) =~= "origin/"@);
        assert(("origin/"@ + rest).skip(n) =~= rest);
    }
    if exists|rest: Seq<char>| base == #[trigger] ("origin/"@ + rest) {
        let rest = choose|rest: Seq<char>| base == #[trigger] ("origin/"@ + rest);
        assert(base.take(n) =~= "origin/"@);
    }
}

/// Once the repository is ready and the directory is picked, new work runs the
/// command that makes its worktree, at the root, on its branch, in that directory
/// and from the base that was asked for. A base of `origin` is fetched first, by
/// its own name, and whether that succeeds does not matter.
pub proof fn law_new_work_runs_its_commands(
    cwd: Seq<char>,
    o: AddV,
    now: u64,
    dir: Seq<char>,
    outs: Seq<OutV>,
    n: nat,
)
    requires
        o.existing_branch is None,
        ensure_of(cwd, outs) == (QueryV::Known { value: Ok::<(), Seq<char>>(()), used: n }),
        n < outs.len(),
        cuts_cleanly(work_body(work_name(o, now)), 40),
    ensures
        ({
            let step = add_of(cwd, o, now, Some(dir), outs);
            let root = root_of(cwd, outs[n as int]);
            let branch = work_branch(o, slug_of(work_name(o, now)));
            let start = seq!["worktree"@, "add"@, "-b"@, branch, dir];
            &&& outs.len() == n + 1 && o.base is None ==> step == GitStepV::<
                Result<JsonV, Seq<char>>,
            >::Run(CommandV { cwd: root, args: start })
            &&& o.base matches Some(b) ==> {
                &&& forall|rest: Seq<char>|
                    b == #[trigger] ("origin/"@ + rest) ==> {
                        &&& outs.len() == n + 1 ==> step == GitStepV::<
                            Result<JsonV, Seq<char>>,
                        >::Run(CommandV { cwd: root, args: seq!["fetch"@, "origin"@, rest] })
                        &&& outs.len() == n + 2 ==> step == GitStepV::<
                            Result<JsonV, Seq<char>>,
                        >::Run(
                            CommandV { cwd: root, args: start.push("--no-track"@).push(b) },
                        )
                    }
                &&& outs.len() == n + 1 && !(exists|rest: Seq<char>|
                    b == #[trigger] ("origin/"@ + rest)) ==> step == GitStepV::<
                    Result<JsonV, Seq<char>>,
                >::Run(CommandV { cwd: root, args: start.push(b) })
            }
        }),
{
    let rest = outs.skip(n as int);
    assert(rest[0] == outs[n as int]);
    let root = root_of(cwd, outs[n as int]);
    let branch = work_branch(o, slug_of(work_name(o, now)));
    if let Some(b) = o.base {
        lemma_origin(b);
        assert forall|r: Seq<char>| b == #[trigger] ("origin/"@ + r) implies after_prefix(
            b,
            "origin/"@,
        ) == Some(r) by {
            assert(after_prefix("origin/"@ + r, "origin/"@) == Some(r));
        }
    }
}

/// What is answered for a worktree that was made: its directory, its branch and
/// the root of its repository. A failure is answered with its complaint, but
/// where the branch is there already it is checked out in the same directory.
pub proof fn law_made_work_is_answered_with_its_place(
    root: Seq<char>,
    branch: Seq<char>,
    dir: Seq<char>,
    base: Option<Seq<char>>,
    out: OutV,
    again: OutV,
)
    ensures
        out.code == 0 ==> (made(root, branch, dir, base, seq![out]) matches GitStepV::Done(Ok(j))
            && place_is(j, dir, branch, root)),
        succeeded(out) matches Err(e) ==> {
            &&& !contains_of(lowercase(e), "already exists"@) ==> made(
                root,
                branch,
                dir,
                base,
                seq![out],
            ) == GitStepV::<Result<JsonV, Seq<char>>>::Done(Err(e))
            &&& contains_of(lowercase(e), "already exists"@) ==> {
                &&& made(root, branch, dir, base, seq![out]) == GitStepV::<
                    Result<JsonV, Seq<char>>,
                >::Run(CommandV { cwd: root, args: seq!["worktree"@, "add"@, dir, branch] })
                &&& again.code == 0 ==> (made(root, branch, dir, base, seq![out, again])
                    matches GitStepV::Done(Ok(j)) && place_is(j, dir, branch, root))
                &&& succeeded(again) matches Err(f) ==> made(
                    root,
                    branch,
                    dir,
                    base,
                    seq![out, again],
                ) == GitStepV::<Result<JsonV, Seq<char>>>::Done(Err(f))
            }
        },
{
    lemma_place(dir, branch, root);
    assert(seq![out].skip(1) =~= Seq::<OutV>::empty());
    assert(seq![out, again].skip(1) =~= seq![again]);
}

/// Whether an answer names this directory, branch and root.
pub open spec fn place_is(j: JsonV, dir: Seq<char>, branch: Seq<char>, root: Seq<char>) -> bool {
    &&& field(j, "path"@) == Some(JsonV::Str(dir))
    &&& field(j, "branch"@) == Some(JsonV::Str(branch))
    &&& field(j, "repoRoot"@) == Some(JsonV::Str(root))
}

proof fn lemma_place(dir: Seq<char>, branch: Seq<char>, root: Seq<char>)
    ensures
        place_is(place(dir, branch, root), dir, branch, root),
{
    reveal_strlit("path");
    reveal_strlit("branch");
    reveal_strlit("repoRoot");
    assert("path"@[0] == 'p' && "branch"@[0] == 'b' && "repoRoot"@[0] == 'r');
    let a = put(no_fields(), "path"@, JsonV::Str(dir));
    let b = put(a, "branch"@, JsonV::Str(branch));
    lemma_lookup_put(no_fields(), "path"@, JsonV::Str(dir), "path"@);
    lemma_lookup_put(a, "branch"@, JsonV::Str(branch), "path"@);
    lemma_lookup_put(a, "branch"@, JsonV::Str(branch), "branch"@);
    lemma_lookup_put(b, "repoRoot"@, JsonV::Str(root), "path"@);
    lemma_lookup_put(b, "repoRoot"@, JsonV::Str(root), "branch"@);
    lemma_lookup_put(b, "repoRoot"@, JsonV::Str(root), "repoRoot"@);
}

/// The directory is asked for at the root and by the name of the work, before any
/// worktree is made.
pub proof fn law_new_work_picks_a_directory_of_its_name(
    cwd: Seq<char>,
    o: AddV,
    now: u64,
    outs: Seq<OutV>,
    n: nat,
)
    requires
        o.existing_branch is None,
        ensure_of(cwd, outs) == (QueryV::Known { value: Ok::<(), Seq<char>>(()), used: n }),
        n < outs.len(),
        cuts_cleanly(work_body(work_name(o, now)), 40),
    ensures
        add_of(cwd, o, now, None, outs) == (GitStepV::<Result<JsonV, Seq<char>>>::PickDir {
            root: root_of(cwd, outs[n as int]),
            slug: slug_of(work_name(o, now)),
        }),
        o.name matches Some(name) ==> work_name(o, now) == name,
{
    assert(outs.skip(n as int)[0] == outs[n as int]);
}

/// A branch that was asked for is the one that is made; without one it is named
/// after the work.
pub proof fn law_new_work_is_on_the_branch_asked_for(o: AddV, slug: Seq<char>)
    ensures
        o.branch matches Some(b) ==> (plain_branch(b) && b.len() > 0 ==> work_branch(o, slug)
            == b),
        o.branch is None ==> work_branch(o, slug) == "hermes/"@ + slug,
{
    if let Some(b) = o.branch {
        if plain_branch(b) && b.len() > 0 {
            law_plain_branch_names_stay(b);
        }
    }
}

/// A branch name that a ref may hold as it is.
pub open spec fn plain_branch(b: Seq<char>) -> bool {
    forall|i: int| 0 <= i < b.len() ==> plain_branch_char(#[trigger] b[i])
}

pub open spec fn plain_branch_char(c: char) -> bool {
    !white_space(c) && (letter_or_number(c) || c == '-' || c == '.' || c == '/' || c == '_')
}

/// A name that a branch may have is kept, character for character.
pub proof fn law_plain_branch_names_stay(b: Seq<char>)
    requires
        plain_branch(b),
    ensures
        branch_chars(b) == b,
        branch_chars(trimmed(b)) == b,
    decreases b.len(),
{
    crate::text::lemma_trim_fixed(b, crate::text::Class::White);
    if b.len() > 0 {
        let s = b.drop_last();
        assert(plain_branch(s)) by {
            assert forall|i: int| 0 <= i < s.len() implies plain_branch_char(#[trigger] s[i]) by {
                assert(s[i] == b[i]);
            }
        }
        law_plain_branch_names_stay(s);
        assert(plain_branch_char(b[b.len() - 1]));
        assert(s.push(b.last()) =~= b);
    } else {
        assert(b =~= Seq::<char>::empty());
    }
}

/// No other character reaches a branch name, and white space inside becomes
/// dashes.
pub proof fn law_branch_names_hold_only_what_a_ref_may(s: Seq<char>, t: Seq<char>, c: char)
    ensures
        plain_branch(branch_chars(s)),
        branch_chars(s + t) == branch_chars(s) + branch_chars(t),
        white_space(c) ==> branch_chars(seq![c]) == seq!['-'],
    decreases s.len() + t.len(),
{
    let one = seq![c];
    assert(one.drop_last() =~= Seq::<char>::empty());
    assert(branch_chars(Seq::<char>::empty()) =~= Seq::<char>::empty());
    assert(branch_chars(one.drop_last()).push('-') =~= seq!['-']);
    if s.len() > 0 {
        law_branch_names_hold_only_what_a_ref_may(s.drop_last(), Seq::empty(), c);
        let r = branch_chars(s.drop_last());
        let w = branch_chars(s);
        assert forall|i: int| 0 <= i < w.len() implies plain_branch_char(#[trigger] w[i]) by {
            if i < r.len() {
                assert(w[i] == r[i]);
            }
        }
    }
    if t.len() > 0 {
        law_branch_names_hold_only_what_a_ref_may(s, t.drop_last(), c);
        assert((s + t).drop_last() =~= s + t.drop_last());
        assert((s + t).last() == t.last());
        assert(branch_chars(s + t) =~= branch_chars(s) + branch_chars(t));
    } else {
        assert(s + t =~= s);
        assert(branch_chars(s) + branch_chars(t) =~= branch_chars(s));
    }
}

/// A repository with a commit is left as it is: nothing but questions is run. A
/// directory that is none is made one, and gets a first commit; and so does a
/// repository without one.
pub proof fn law_a_repository_is_left_alone(cwd: Seq<char>, outs: Seq<OutV>)
    requires
        outs.len() >= 1,
    ensures
        ({
            let inside = quiet_of(outs[0]) == "true"@;
            let q = ensure_of(cwd, outs);
            &&& inside && outs.len() == 1 ==> q == QueryV::<Result<(), Seq<char>>>::Ask(
                CommandV { cwd, args: seq!["rev-parse"@, "--verify"@, "HEAD"@] },
            )
            &&& inside && outs.len() >= 2 && quiet_of(outs[1]).len() > 0 ==> q == (
            QueryV::Known { value: Ok::<(), Seq<char>>(()), used: 2 })
            &&& !inside && outs.len() == 1 ==> q == QueryV::<Result<(), Seq<char>>>::Ask(
                CommandV { cwd, args: seq!["init"@] },
            )
            &&& !inside && outs.len() >= 2 && outs[1].code != 0 ==> (q matches QueryV::Known {
                value: Err(_),
                ..
            })
            &&& outs.len() == 2 && (if inside {
                quiet_of(outs[1]).len() == 0
            } else {
                outs[1].code == 0
            }) ==> (q matches QueryV::Ask(c) && c.cwd == cwd && c.args.contains("commit"@)
                && c.args.contains("--allow-empty"@))
            &&& outs.len() == 3 && (if inside {
                quiet_of(outs[1]).len() == 0
            } else {
                outs[1].code == 0
            }) ==> (q matches QueryV::Known { value, used } && used == 3 && (value is Ok
                <==> outs[2].code == 0))
        }),
{
    assert(outs.len() >= 2 ==> outs.skip(2).len() == outs.len() - 2);
    assert(outs.len() >= 3 ==> outs.skip(2)[0] == outs[2]);
    let c = crate::git_worktree::first_commit(cwd);
    assert(c.args[4] == "commit"@);
    assert(c.args[5] == "--allow-empty"@);
}

// ---------------------------------------------------------------------------
// Branches that there are
// ---------------------------------------------------------------------------

/// The default branch is switched to in place; any other branch is checked out in
/// the directory that was picked. The branch is the one that was named.
pub proof fn law_an_existing_branch_is_checked_out(
    root: Seq<char>,
    branch: Seq<char>,
    dir: Seq<char>,
    outs: Seq<OutV>,
    trunk: Option<Seq<char>>,
)
    requires
        plain_branch(branch),
        branch.len() > 0,
        trunk_of(root, outs) == (QueryV::Known { value: trunk, used: outs.len() }),
        cuts_cleanly(work_body(branch), 40),
    ensures
        trunk == Some(branch) ==> existing_of(root, branch, Some(dir), outs) == GitStepV::<
            Result<JsonV, Seq<char>>,
        >::Run(CommandV { cwd: root, args: seq!["switch"@, branch] }),
        trunk != Some(branch) ==> existing_of(root, branch, Some(dir), outs) == GitStepV::<
            Result<JsonV, Seq<char>>,
        >::Run(CommandV { cwd: root, args: seq!["worktree"@, "add"@, dir, branch] }),
        trunk != Some(branch) ==> existing_of(root, branch, None, outs) == (GitStepV::<
            Result<JsonV, Seq<char>>,
        >::PickDir { root, slug: slug_of(branch) }),
{
    law_plain_branch_names_stay(branch);
}

/// What is answered once an existing branch is checked out: where it is.
pub proof fn law_a_checked_out_branch_is_answered_with_its_place(
    root: Seq<char>,
    branch: Seq<char>,
    dir: Seq<char>,
    outs: Seq<OutV>,
    out: OutV,
    trunk: Option<Seq<char>>,
)
    requires
        plain_branch(branch),
        branch.len() > 0,
        trunk_of(root, outs.push(out)) == (QueryV::Known { value: trunk, used: outs.len() }),
        cuts_cleanly(work_body(branch), 40),
    ensures
        out.code == 0 ==> (existing_of(root, branch, Some(dir), outs.push(out))
            matches GitStepV::Done(Ok(j)) && place_is(
            j,
            if trunk == Some(branch) {
                root
            } else {
                dir
            },
            branch,
            root,
        )),
        succeeded(out) matches Err(e) ==> existing_of(root, branch, Some(dir), outs.push(out))
            == GitStepV::<Result<JsonV, Seq<char>>>::Done(Err(e)),
{
    law_plain_branch_names_stay(branch);
    lemma_place(root, branch, root);
    lemma_place(dir, branch, root);
    assert(outs.push(out).skip(outs.len() as int) =~= seq![out]);
}

/// Switching goes to the branch that was named, and says so once it is done;
/// without a name nothing is run.
pub proof fn law_switching_goes_to_the_branch_named(
    cwd: Seq<char>,
    branch: Seq<char>,
    out: OutV,
)
    requires
        plain_branch(branch),
    ensures
        branch.len() > 0 ==> {
            &&& switch_of(cwd, branch, Seq::empty()) == GitStepV::<
                Result<JsonV, Seq<char>>,
            >::Run(CommandV { cwd, args: seq!["switch"@, branch] })
            &&& out.code == 0 ==> (switch_of(cwd, branch, seq![out]) matches GitStepV::Done(Ok(j))
                && field(j, "branch"@) == Some(JsonV::Str(branch)))
            &&& succeeded(out) matches Err(e) ==> switch_of(cwd, branch, seq![out]) == GitStepV::<
                Result<JsonV, Seq<char>>,
            >::Done(Err(e))
        },
        branch.len() == 0 ==> (switch_of(cwd, branch, Seq::empty()) matches GitStepV::Done(Err(_))),
{
    law_plain_branch_names_stay(branch);
    lemma_lookup_put(no_fields(), "branch"@, JsonV::Str(branch), "branch"@);
}

/// A worktree is removed by its path, from the root of its repository; by force
/// only where that is asked for. The answer names what was removed.
pub proof fn law_removing_a_worktree_names_it(
    cwd: Seq<char>,
    path: Seq<char>,
    force: bool,
    list: OutV,
    out: OutV,
)
    ensures
        remove_of(cwd, path, false, seq![list]) == GitStepV::<Result<JsonV, Seq<char>>>::Run(
            CommandV { cwd: root_of(cwd, list), args: seq!["worktree"@, "remove"@, path] },
        ),
        remove_of(cwd, path, true, seq![list]) == GitStepV::<Result<JsonV, Seq<char>>>::Run(
            CommandV {
                cwd: root_of(cwd, list),
                args: seq!["worktree"@, "remove"@, "--force"@, path],
            },
        ),
        out.code == 0 ==> (remove_of(cwd, path, force, seq![list, out])
            matches GitStepV::Done(Ok(j)) && field(j, "removed"@) == Some(JsonV::Str(path))),
        succeeded(out) matches Err(e) ==> remove_of(cwd, path, force, seq![list, out])
            == GitStepV::<Result<JsonV, Seq<char>>>::Done(Err(e)),
{
    assert(seq![list].skip(1) =~= Seq::<OutV>::empty());
    assert(seq![list, out].skip(1) =~= seq![out]);
    lemma_lookup_put(no_fields(), "removed"@, JsonV::Str(path), "removed"@);
}

/// The default branch is the remote's where that is known; else the first of
/// `main` and `master` that there is, here before on the remote; else none.
pub proof fn law_the_default_branch_is_the_remotes_or_a_usual_one(
    cwd: Seq<char>,
    head: OutV,
    a: OutV,
    b: OutV,
    c: OutV,
    d: OutV,
    name: Seq<char>,
)
    requires
        !starts(name, "origin/"@),
        name.len() > 0,
        name != "HEAD"@,
    ensures
        quiet_of(head) == "origin/"@ + name ==> trunk_of(cwd, seq![head]) == (QueryV::Known {
            value: Some(name),
            used: 1,
        }),
        quiet_of(head).len() == 0 ==> {
            &&& quiet_of(a).len() > 0 ==> trunk_of(cwd, seq![head, a]) == (QueryV::Known {
                value: Some("main"@),
                used: 2,
            })
            &&& quiet_of(a).len() == 0 && quiet_of(b).len() > 0 ==> trunk_of(
                cwd,
                seq![head, a, b],
            ) == (QueryV::Known { value: Some("master"@), used: 3 })
            &&& quiet_of(a).len() == 0 && quiet_of(b).len() == 0 && quiet_of(c).len() > 0
                ==> trunk_of(cwd, seq![head, a, b, c]) == (QueryV::Known {
                value: Some("main"@),
                used: 4,
            })
            &&& quiet_of(a).len() == 0 && quiet_of(b).len() == 0 && quiet_of(c).len() == 0
                && quiet_of(d).len() > 0 ==> trunk_of(cwd, seq![head, a, b, c, d]) == (
            QueryV::Known { value: Some("master"@), used: 5 })
            &&& quiet_of(a).len() == 0 && quiet_of(b).len() == 0 && quiet_of(c).len() == 0
                && quiet_of(d).len() == 0 ==> trunk_of(cwd, seq![head, a, b, c, d]) == (
            QueryV::Known { value: None::<Seq<char>>, used: 5 })
        },
{
    reveal_with_fuel(first_to_print, 6);
    reveal_with_fuel(crate::git::short_ref, 3);
    reveal_strlit("origin/");
    reveal_strlit("HEAD");
    reveal_strlit("origin/HEAD");
    let h = "origin/"@ + name;
    assert(h.take(7) =~= "origin/"@);
    assert(h.skip(7) =~= name);
    assert("origin/HEAD"@.skip(7) =~= "HEAD"@);
    assert(seq![head, a].skip(1) =~= seq![a]);
    assert(seq![head, a, b].skip(1) =~= seq![a, b]);
    assert(seq![head, a, b, c].skip(1) =~= seq![a, b, c]);
    assert(seq![head, a, b, c, d].skip(1) =~= seq![a, b, c, d]);
}

// ---------------------------------------------------------------------------
// Files
// ---------------------------------------------------------------------------

/// Whether a command of this verb ends in the file, set off by `--` so that it is
/// never taken for an option.
pub open spec fn names_file(c: CommandV, cwd: Seq<char>, verb: Seq<char>, file: Seq<char>) -> bool {
    c.cwd == cwd && c.args.len() >= 3 && c.args[0] == verb && c.args.last() == file && c.args[
    c.args.len() - 2] == "--"@
}

/// Staging, unstaging and reverting a file concern that file; without one they
/// concern everything. Unstaging leaves the working tree, and reverting restores
/// what is tracked before it removes what is not.
pub proof fn law_changes_concern_their_file(cwd: Seq<char>, file: Seq<char>, o: OutV)
    ensures
        names_file(stage_command(cwd, Some(file)), cwd, "add"@, file),
        stage_command(cwd, None).args == seq!["add"@, "-A"@],
        names_file(unstage_command(cwd, Some(file)), cwd, "reset"@, file),
        unstage_command(cwd, None).args == seq!["reset"@, "-q"@, "HEAD"@],
        !unstage_command(cwd, None).args.contains("--hard"@),
        revert_of(cwd, Some(file), Seq::empty()) matches GitStepV::Run(c) && names_file(
            c,
            cwd,
            "checkout"@,
            file,
        ) && c.args[1] == "HEAD"@,
        revert_of(cwd, Some(file), seq![o]) matches GitStepV::Run(c) && names_file(
            c,
            cwd,
            "clean"@,
            file,
        ),
        revert_of(cwd, None, Seq::empty()) == GitStepV::<Result<(), Seq<char>>>::Run(
            CommandV { cwd, args: seq!["checkout"@, "HEAD"@, "--"@, "."@] },
        ),
        revert_of(cwd, None, seq![o]) == GitStepV::<Result<(), Seq<char>>>::Run(
            CommandV { cwd, args: seq!["clean"@, "-fd"@] },
        ),
{
    reveal_strlit("--hard");
    reveal_strlit("reset");
    reveal_strlit("-q");
    reveal_strlit("HEAD");
    let c = unstage_command(cwd, None);
    assert("--hard"@.len() == 6 && "reset"@.len() == 5 && "-q"@.len() == 2 && "HEAD"@.len() == 4);
    assert forall|i: int| 0 <= i < c.args.len() implies c.args[i] != "--hard"@ by {}
}

/// A single run that has to succeed is answered by whether it did.
pub proof fn law_a_single_run_is_answered_by_its_outcome(c: CommandV, out: OutV)
    ensures
        one_run(c, Seq::empty()) == GitStepV::<Result<(), Seq<char>>>::Run(c),
        one_run(c, seq![out]) matches GitStepV::Done(r) && (r is Ok <==> out.code == 0),
{
}

/// A revert has succeeded where either run did.
pub proof fn law_a_revert_succeeds_where_either_run_does(
    cwd: Seq<char>,
    file: Option<Seq<char>>,
    a: OutV,
    b: OutV,
)
    ensures
        revert_of(cwd, file, seq![a, b]) matches GitStepV::Done(r) && (r is Ok <==> a.code == 0
            || b.code == 0),
{
}

/// A reference is resolved by its own name, `HEAD` where none is given, and to
/// what is printed for it; to none where nothing is.
pub proof fn law_a_reference_is_resolved_by_name(
    cwd: Seq<char>,
    reference: Seq<char>,
    out: OutV,
)
    ensures
        rev_parse_of(cwd, Some(reference), Seq::empty()) == GitStepV::<Option<Seq<char>>>::Run(
            CommandV { cwd, args: seq!["rev-parse"@, reference] },
        ),
        rev_parse_of(cwd, None, Seq::empty()) == rev_parse_of(cwd, Some("HEAD"@), Seq::empty()),
        out.code == 0 && trimmed(out.stdout).len() > 0 ==> rev_parse_of(
            cwd,
            Some(reference),
            seq![out],
        ) == GitStepV::Done(Some(trimmed(out.stdout))),
        out.code != 0 || trimmed(out.stdout).len() == 0 ==> rev_parse_of(
            cwd,
            Some(reference),
            seq![out],
        ) == GitStepV::Done(None::<Seq<char>>),
{
}

/// The diff of a file is the one that git prints for it, or, where that is empty
/// and the file is untracked, one against nothing.
pub proof fn law_a_diff_is_the_one_printed(
    cwd: Seq<char>,
    file: Seq<char>,
    a: OutV,
    b: OutV,
    c: OutV,
)
    ensures
        file_diff_of(cwd, file, Seq::empty()) matches GitStepV::Run(q) && names_file(
            q,
            cwd,
            "diff"@,
            file,
        ),
        quiet_of(a).len() > 0 ==> file_diff_of(cwd, file, seq![a]) == GitStepV::Done(quiet_of(a)),
        quiet_of(a).len() == 0 ==> {
            &&& file_diff_of(cwd, file, seq![a]) matches GitStepV::Run(q) && names_file(
                q,
                cwd,
                "status"@,
                file,
            )
            &&& !starts(quiet_of(b), "??"@) ==> file_diff_of(cwd, file, seq![a, b])
                == GitStepV::Done(Seq::<char>::empty())
            &&& starts(quiet_of(b), "??"@) ==> {
                &&& file_diff_of(cwd, file, seq![a, b]) == GitStepV::<Seq<char>>::Run(
                    CommandV {
                        cwd,
                        args: seq!["diff"@, "--no-index"@, "--"@, "/dev/null"@, file],
                    },
                )
                &&& file_diff_of(cwd, file, seq![a, b, c]) == GitStepV::Done(c.stdout)
            }
        },
{
}

/// The diff of a review is the one of its scope: from the merge base for a branch,
/// from the recorded commit for the last turn, of the index for what is staged,
/// else of the working tree.
pub proof fn law_a_review_diff_is_of_its_scope(
    cwd: Seq<char>,
    file: Seq<char>,
    base: Seq<char>,
    staged: bool,
    outs: Seq<OutV>,
    a: OutV,
)
    ensures
        base_of(cwd, outs) == (QueryV::Known { value: Some(base), used: outs.len() })
            ==> review_diff_of(cwd, file, "branch"@, None, staged, outs) == GitStepV::<
            Seq<char>,
        >::Run(CommandV { cwd, args: seq!["diff"@, base + "...HEAD"@, "--"@, file] }),
        review_diff_of(cwd, file, "lastTurn"@, Some(base), staged, Seq::empty()) == GitStepV::<
            Seq<char>,
        >::Run(CommandV { cwd, args: seq!["diff"@, base, "--"@, file] }),
        review_diff_of(cwd, file, "uncommitted"@, None, true, Seq::empty()) == GitStepV::<
            Seq<char>,
        >::Run(CommandV { cwd, args: seq!["diff"@, "--cached"@, "--"@, file] }),
        review_diff_of(cwd, file, "uncommitted"@, None, false, Seq::empty()) == GitStepV::<
            Seq<char>,
        >::Run(CommandV { cwd, args: seq!["diff"@, "--"@, file] }),
        a.code == 0 ==> {
            &&& review_diff_of(cwd, file, "lastTurn"@, Some(base), staged, seq![a])
                == GitStepV::Done(a.stdout)
            &&& review_diff_of(cwd, file, "uncommitted"@, None, true, seq![a]) == GitStepV::Done(
                a.stdout,
            )
            &&& trimmed(a.stdout).len() > 0 ==> review_diff_of(
                cwd,
                file,
                "uncommitted"@,
                None,
                false,
                seq![a],
            ) == GitStepV::Done(a.stdout)
        },
{
    lemma_scopes_differ();
}

proof fn lemma_scopes_differ()
    ensures
        "branch"@ != "lastTurn"@,
        "branch"@ != "uncommitted"@,
        "lastTurn"@ != "uncommitted"@,
{
    reveal_strlit("branch");
    reveal_strlit("lastTurn");
    reveal_strlit("uncommitted");
    assert("branch"@[0] == 'b' && "lastTurn"@[0] == 'l' && "uncommitted"@[0] == 'u');
}

/// A review looks at the commits since the merge base for a branch, at all since
/// the recorded commit, with the untracked files, for the last turn, and at the
/// working tree otherwise.
pub proof fn law_a_review_is_of_its_scope(b: Seq<char>, r: Option<Seq<char>>)
    ensures
        scope_of("branch"@, Some(b), r) == (ReviewScopeV::Range {
            base: b,
            range: b + "...HEAD"@,
            with_untracked: false,
        }),
        scope_of("branch"@, None, r) is Nothing,
        scope_of("lastTurn"@, r, Some(b)) == (ReviewScopeV::Range {
            base: b,
            range: b,
            with_untracked: true,
        }),
        scope_of("lastTurn"@, r, None) is Nothing,
        forall|s: Seq<char>|
            s != "branch"@ && s != "lastTurn"@ ==> #[trigger] scope_of(s, r, r) is Uncommitted,
{
    lemma_scopes_differ();
}

// ---------------------------------------------------------------------------
// Committing and pushing
// ---------------------------------------------------------------------------

/// A commit has the message that was given. Where something is staged it is just
/// that; where nothing is, everything is staged first, and a failure to do so
/// ends it.
pub proof fn law_a_commit_has_its_message(
    cwd: Seq<char>,
    message: Seq<char>,
    push: bool,
    names: OutV,
    add: OutV,
)
    ensures
        quiet_of(names).len() > 0 ==> commit_of(cwd, message, push, seq![names]) == GitStepV::<
            Result<(), Seq<char>>,
        >::Run(CommandV { cwd, args: seq!["commit"@, "-m"@, message] }),
        quiet_of(names).len() == 0 ==> {
            &&& commit_of(cwd, message, push, seq![names]) == GitStepV::<
                Result<(), Seq<char>>,
            >::Run(CommandV { cwd, args: seq!["add"@, "-A"@] })
            &&& add.code == 0 ==> commit_of(cwd, message, push, seq![names, add]) == GitStepV::<
                Result<(), Seq<char>>,
            >::Run(CommandV { cwd, args: seq!["commit"@, "-m"@, message] })
            &&& add.code != 0 ==> (commit_of(cwd, message, push, seq![names, add])
                matches GitStepV::Done(Err(_)))
        },
{
    assert(seq![names].skip(1) =~= Seq::<OutV>::empty());
    assert(seq![names, add].skip(2) =~= Seq::<OutV>::empty());
}

/// What is pushed is asked for: after a commit that succeeded nothing more is run
/// without it, and the upstream is looked for with it. A failed commit is the
/// answer either way.
pub proof fn law_a_commit_is_pushed_where_asked(
    cwd: Seq<char>,
    message: Seq<char>,
    push: bool,
    names: OutV,
    commit: OutV,
)
    requires
        quiet_of(names).len() > 0,
    ensures
        commit.code == 0 ==> {
            &&& commit_of(cwd, message, false, seq![names, commit]) == GitStepV::<
                Result<(), Seq<char>>,
            >::Done(Ok(()))
            &&& commit_of(cwd, message, true, seq![names, commit]) matches GitStepV::Run(c)
                && c.cwd == cwd && c.args.last() == "@{u}"@
        },
        commit.code != 0 ==> (commit_of(cwd, message, push, seq![names, commit])
            matches GitStepV::Done(Err(_))),
{
    assert(seq![names, commit].skip(1) =~= seq![commit]);
    assert(seq![commit].skip(1) =~= Seq::<OutV>::empty());
}

/// A branch with an upstream is pushed to it; one without is pushed to `origin`
/// under its own name, which becomes its upstream. The outcome is that of the
/// push.
pub proof fn law_a_push_goes_to_the_upstream(
    cwd: Seq<char>,
    upstream: OutV,
    head: OutV,
    push: OutV,
)
    ensures
        quiet_of(upstream).len() > 0 ==> {
            &&& push_of(cwd, seq![upstream]) == QueryV::<Result<(), Seq<char>>>::Ask(
                CommandV { cwd, args: seq!["push"@] },
            )
            &&& push_of(cwd, seq![upstream, push]) matches QueryV::Known { value, .. } && (value
                is Ok <==> push.code == 0)
        },
        quiet_of(upstream).len() == 0 && quiet_of(head).len() > 0 ==> {
            &&& push_of(cwd, seq![upstream, head]) == QueryV::<Result<(), Seq<char>>>::Ask(
                CommandV { cwd, args: seq!["push"@, "-u"@, "origin"@, quiet_of(head)] },
            )
            &&& push_of(cwd, seq![upstream, head, push]) matches QueryV::Known { value, .. } && (
            value is Ok <==> push.code == 0)
        },
        quiet_of(upstream).len() == 0 && quiet_of(head).len() == 0 ==> (push_of(
            cwd,
            seq![upstream, head],
        ) matches QueryV::Known { value: Ok(_), .. }),
{
}

/// A pull request is opened after the push, whatever came of it, and answered with
/// the address that is printed last; a failure is an error.
pub proof fn law_a_pull_request_is_answered_with_its_address(
    cwd: Seq<char>,
    outs: Seq<OutV>,
    value: Result<(), Seq<char>>,
    out: OutV,
    url: Seq<char>,
)
    requires
        push_of(cwd, outs) == (QueryV::Known { value, used: outs.len() }),
        push_of(cwd, outs.push(out)) == (QueryV::Known { value, used: outs.len() }),
        trimmed(url) == url,
        url.len() > 0,
        !url.contains('\n'),
    ensures
        create_pr_of(cwd, outs) == GitStepV::<Result<JsonV, Seq<char>>>::RunGh(
            CommandV { cwd, args: seq!["pr"@, "create"@, "--fill"@] },
        ),
        out.code != 0 ==> (create_pr_of(cwd, outs.push(out)) matches GitStepV::Done(Err(_))),
        out.code == 0 && trimmed(out.stdout) == url ==> (create_pr_of(cwd, outs.push(out))
            matches GitStepV::Done(Ok(j)) && field(j, "url"@) == Some(JsonV::Str(url))),
{
    assert(outs.skip(outs.len() as int) =~= Seq::<OutV>::empty());
    assert(outs.push(out).skip(outs.len() as int) =~= seq![out]);
    assert forall|i: int| 0 <= i < url.len() implies #[trigger] url[i] != '\n' by {
        assert(url.contains(url[i]));
    }
    crate::text::lemma_split_one(url, '\n');
    lemma_lookup_put(no_fields(), "url"@, JsonV::Str(url), "url"@);
}

/// What a commit message is written from: the staged changes where there are
/// some, else all of them.
pub proof fn law_a_commit_message_is_of_what_is_staged(cwd: Seq<char>, status: OutV)
    ensures
        commit_context_of(cwd, seq![status]) == GitStepV::<(Seq<char>, Seq<char>)>::Run(
            CommandV {
                cwd,
                args: seq![
                    "diff"@,
                    if exists|i: int|
                        0 <= i < entries_of(quiet_of(status)).len() && {
                            let e = #[trigger] entries_of(quiet_of(status))[i];
                            e.index != ' ' && e.index != '?' && e.index != '.'
                        } {
                        "--cached"@
                    } else {
                        "HEAD"@
                    },
                ],
            },
        ),
{
    let v = entries_of(quiet_of(status));
    if any_staged(v) {
        let i = choose|i: int|
            0 <= i < v.len() && crate::git_review::staged_change(#[trigger] v[i]);
        assert(v[i].index != ' ');
    }
}

} // verus!
