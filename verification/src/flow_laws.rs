//! What the runs of `git` and `gh` come to: which one is asked for next, and what
//! their outputs are read as.

use crate::connections_dial::{
    changed_answer, rows_answer, saved_answer, sendable, sendable_opt, status_address, told_change,
};
use crate::git::{
    base_branch_view, branch_view, quiet_of, ref_of, refs_of, worktrees_of, BranchV, OutV,
    WorktreeV,
};
use crate::git_flow::{
    base_branches_step, base_of, branches_step, range_step, review_list_of, ship_of, trunk_of,
    uncommitted_step, worktree_list_of, CommandV, GitStepV, QueryV,
};
use crate::git_review::{
    fits, pr_of, range_file, range_list_of, uncommitted_list, uncommitted_of, ReviewV,
};
use crate::git_status::{
    column_sum, count_line, file_counts, inserted_lines, insertions_of, status_of, FileCountV,
};
use crate::git_worktree::{forced, nth_dir, status_step, WorktreeRemoveOptions};
use crate::json::{field, lemma_found_after_put, Fields, JsonV};
use crate::registry_migrate::{sidecar_of, still_current};
use crate::text::{dec, lines_of, Class};
use crate::text_laws::{
    law_a_piece_is_itself, law_blank_trims_to_nothing, law_pieces_part_at_a_separator,
    law_trimming_takes_off_the_ends, lemma_as_it_is, only, trim_text,
};
use crate::windows::{instance_label_of, session_label_of};
use vstd::prelude::*;

verus! {

// ---------------------------------------------------------------------------
// Outputs
// ---------------------------------------------------------------------------

/// What a run printed counts without the white space around it, where the run
/// succeeded; a failed run printed nothing.
pub proof fn law_a_failed_run_prints_nothing(o: OutV, t: Seq<char>, w: Seq<char>)
    requires
        trim_text(t),
        only(w, Class::White),
    ensures
        o.code == 0 && o.stdout == t + w ==> quiet_of(o) == t,
        o.code != 0 ==> quiet_of(o).len() == 0,
{
    law_trimming_takes_off_the_ends(Seq::empty(), t, w, Class::White);
    assert(Seq::<char>::empty() + t + w =~= t + w);
}

/// A reference is what precedes the first tab of its line; a line without one is
/// none.
pub proof fn law_a_reference_precedes_the_tab(name: Seq<char>, rest: Seq<char>)
    requires
        trim_text(name),
        !name.contains('\t'),
    ensures
        ref_of(name) == Some(name),
        ref_of(name + seq!['\t'] + rest) == Some(name),
        ref_of(Seq::empty()) is None,
{
    lemma_as_it_is(name);
    law_a_piece_is_itself(name, '\t');
    law_pieces_part_at_a_separator(name, rest, '\t');
    law_a_piece_is_itself(Seq::empty(), '\t');
    law_blank_trims_to_nothing(Seq::empty(), Class::White);
}

/// References and counted files are read line by line, in their order.
pub proof fn law_lines_are_read_in_order(a: Seq<char>, b: Seq<char>, line: Seq<char>)
    requires
        lines_of(b) == lines_of(a).push(line),
    ensures
        ref_of(line) matches Some(n) ==> refs_of(b) == refs_of(a).push(n),
        ref_of(line) is None ==> refs_of(b) == refs_of(a),
        count_line(line) matches Some(c) ==> file_counts(b) == file_counts(a).push(c),
        count_line(line) is None ==> file_counts(b) == file_counts(a),
{
    assert(lines_of(b).drop_last() =~= lines_of(a));
}

/// A line of fewer than three columns adds nothing to a sum of lines.
pub proof fn law_short_lines_add_nothing(l: Seq<Seq<char>>, line: Seq<char>, col: int)
    requires
        crate::text::split_of(line, '\t').len() < 3,
    ensures
        column_sum(l.push(line), col) == column_sum(l, col),
{
    assert(l.push(line).drop_last() =~= l);
}

/// A new file adds its lines where it is a plain file of no more than a mebibyte
/// that could be read; otherwise none.
pub proof fn law_small_new_files_are_counted(len: u64, b: Seq<u8>)
    ensures
        len <= 1024 * 1024 ==> insertions_of(true, len, Some(b)) == inserted_lines(b),
        len > 1024 * 1024 ==> insertions_of(true, len, Some(b)) == 0,
        insertions_of(false, len, Some(b)) == 0,
        insertions_of(true, len, None) == 0,
{
}

// ---------------------------------------------------------------------------
// Lists of worktrees and branches
// ---------------------------------------------------------------------------

/// The worktrees are those that the run printed, and nothing where it failed.
pub proof fn law_worktrees_are_those_printed(cwd: Seq<char>, o: OutV)
    ensures
        worktree_list_of(cwd, Seq::empty()) == GitStepV::<Seq<WorktreeV>>::Run(
            (CommandV { cwd, args: seq!["worktree"@, "list"@, "--porcelain"@] }),
        ),
        worktree_list_of(cwd, seq![o]) == GitStepV::Done(worktrees_of(lines_of(quiet_of(o)))),
{
}

/// Each local branch that was printed is listed once, in its order, with where it
/// is checked out; a repository without branches lists none.
pub proof fn law_branches_are_listed_as_printed(cwd: Seq<char>, outs: Seq<OutV>, i: int)
    requires
        outs.len() >= 2,
        quiet_of(outs[0]).len() > 0,
        trunk_of(cwd, outs.skip(2)) is Known,
        0 <= i < refs_of(quiet_of(outs[0])).len(),
    ensures
        ({
            let t = trunk_of(cwd, outs.skip(2))->value;
            let l = branches_step(cwd, outs);
            let b = base_branches_step(cwd, outs);
            let n = refs_of(quiet_of(outs[0]));
            &&& l is Done && l->Done_0.len() == n.len()
            &&& l->Done_0[i] == branch_view(n[i], worktrees_of(lines_of(quiet_of(outs[1]))), t)
            &&& b is Done && b->Done_0.len() == n.len()
            &&& b->Done_0[i] == base_branch_view(n[i], quiet_of(outs[1]), t)
        }),
{
}

/// Branches are asked for with the latest commit first, the local ones or also
/// those of the remotes; nothing more is asked where there is none.
pub proof fn law_branches_are_asked_for(cwd: Seq<char>, o: OutV)
    ensures
        branches_step(cwd, Seq::empty()) matches GitStepV::Run(c) && c.cwd == cwd
            && c.args.contains("--sort=-committerdate"@) && c.args.last() == "refs/heads"@
            && !c.args.contains("refs/remotes"@),
        base_branches_step(cwd, Seq::empty()) matches GitStepV::Run(c) && c.cwd == cwd
            && c.args.contains("--sort=-committerdate"@) && c.args.contains("refs/heads"@)
            && c.args.contains("refs/remotes"@),
        quiet_of(o).len() == 0 ==> (branches_step(cwd, seq![o]) matches GitStepV::Done(l) && l.len()
            == 0) && (base_branches_step(cwd, seq![o]) matches GitStepV::Done(l) && l.len() == 0),
        quiet_of(o).len() > 0 ==> branches_step(cwd, seq![o]) == GitStepV::<
            Seq<BranchV>,
        >::Run((CommandV { cwd, args: seq!["worktree"@, "list"@, "--porcelain"@] })),
        quiet_of(o).len() > 0 ==> (base_branches_step(cwd, seq![o]) matches GitStepV::Run(c)
            && c.cwd == cwd && c.args[0] == "symbolic-ref"@ && c.args.last()
            == "refs/remotes/origin/HEAD"@),
{
    reveal_strlit("for-each-ref");
    reveal_strlit("--format=%(refname:short)");
    reveal_strlit("--sort=-committerdate");
    reveal_strlit("refs/heads");
    reveal_strlit("refs/remotes");
    assert("for-each-ref"@.len() == 12 && "--format=%(refname:short)"@.len() == 25);
    assert("--sort=-committerdate"@.len() == 21 && "refs/heads"@.len() == 10);
    assert("refs/remotes"@.len() == 12 && "refs/remotes"@[0] == 'r' && "for-each-ref"@[0] == 'f');
    if let GitStepV::Run(c) = branches_step(cwd, Seq::empty()) {
        assert(c.args[2] == "--sort=-committerdate"@);
        assert forall|i: int| 0 <= i < c.args.len() implies c.args[i] != "refs/remotes"@ by {}
    }
    if let GitStepV::Run(c) = base_branches_step(cwd, Seq::empty()) {
        assert(c.args[2] == "--sort=-committerdate"@);
        assert(c.args[3] == "refs/heads"@);
        assert(c.args[4] == "refs/remotes"@);
    }
}

// ---------------------------------------------------------------------------
// Reviews
// ---------------------------------------------------------------------------

/// The uncommitted files are those of the status, with the lines of the staged
/// changes from the one run and of the unstaged from the other.
pub proof fn law_a_review_reads_its_three_runs(cwd: Seq<char>, s: OutV, c: OutV, d: OutV)
    ensures
        ({
            let all = uncommitted_of(
                quiet_of(s),
                file_counts(quiet_of(c)),
                file_counts(quiet_of(d)),
            );
            (forall|i: int| 0 <= i < all.len() ==> fits(#[trigger] all[i])) ==> uncommitted_step(
                cwd,
                seq![s, c, d],
            ) == GitStepV::Done((uncommitted_list(all), None::<Seq<char>>))
        }),
        uncommitted_step(cwd, seq![s]) == GitStepV::<(Seq<ReviewV>, Option<Seq<char>>)>::Run(
            (CommandV { cwd, args: seq!["diff"@, "--numstat"@, "--cached"@] }),
        ),
        uncommitted_step(cwd, seq![s, c]) == GitStepV::<(Seq<ReviewV>, Option<Seq<char>>)>::Run(
            (CommandV { cwd, args: seq!["diff"@, "--numstat"@] }),
        ),
        uncommitted_step(cwd, Seq::empty()) is Run,
{
}

/// A range is counted from its base, and the answer names that base. New files
/// are asked for only where they are wanted.
pub proof fn law_a_range_is_counted_from_its_base(
    cwd: Seq<char>,
    base: Seq<char>,
    range: Seq<char>,
    o: OutV,
    s: OutV,
)
    ensures
        range_step(cwd, base, range, false, Seq::empty()) == GitStepV::<
            (Seq<ReviewV>, Option<Seq<char>>),
        >::Run((CommandV { cwd, args: seq!["diff"@, "--numstat"@, range] })),
        range_step(cwd, base, range, false, seq![o]) == GitStepV::Done(
            (range_list_of(file_counts(quiet_of(o)), None), Some(base)),
        ),
        file_counts(quiet_of(o)).len() < 2000 ==> range_step(cwd, base, range, true, seq![o])
            is Run && range_step(cwd, base, range, true, seq![o, s]) == GitStepV::Done(
            (range_list_of(file_counts(quiet_of(o)), Some(quiet_of(s))), Some(base)),
        ),
{
}

/// A range lists each counted file once, whatever their order.
pub proof fn law_a_range_lists_its_files(counts: Seq<FileCountV>)
    requires
        counts.len() <= 2000,
    ensures
        range_list_of(counts, None).to_multiset() == counts.map_values(
            |c: FileCountV| range_file(c),
        ).to_multiset(),
{
    let files = counts.map_values(|c: FileCountV| range_file(c));
    assert(crate::git_status::at_most(files, 2000) =~= files);
    crate::git_review::law_review_is_sorted(files);
}

/// A review of a branch first asks where the branch left its base, and is then of
/// what came since; one of the last turn is of what came since it began; any
/// other is of the working tree. Without a base nothing is listed.
pub proof fn law_a_review_is_of_what_came_since(
    cwd: Seq<char>,
    b: Seq<char>,
    used: nat,
    turn: Option<Seq<char>>,
    outs: Seq<OutV>,
    scope: Seq<char>,
)
    ensures
        base_of(cwd, outs) == (QueryV::Known { value: Some(b), used }) ==> review_list_of(
            cwd,
            "branch"@,
            turn,
            outs,
        ) == range_step(cwd, b, b + "...HEAD"@, false, outs.skip(used as int)),
        base_of(cwd, outs) == (QueryV::Known { value: None::<Seq<char>>, used }) ==> (
        review_list_of(cwd, "branch"@, turn, outs) matches GitStepV::Done(l) && l.0.len() == 0
            && l.1 is None),
        base_of(cwd, outs) is Ask ==> review_list_of(cwd, "branch"@, turn, outs) is Run,
        review_list_of(cwd, "lastTurn"@, Some(b), outs) == range_step(cwd, b, b, true, outs),
        review_list_of(cwd, "lastTurn"@, None, outs) matches GitStepV::Done(l) && l.0.len() == 0,
        scope != "branch"@ && scope != "lastTurn"@ ==> review_list_of(cwd, scope, turn, outs)
            == uncommitted_step(cwd, outs),
{
    reveal_strlit("branch");
    reveal_strlit("lastTurn");
    assert("branch"@.len() == 6 && "lastTurn"@.len() == 8);
}

/// A status is read of a directory that is a repository: its files and its branch
/// from the one run, its lines from the other.
pub proof fn law_a_status_reads_its_runs(cwd: Seq<char>, s: OutV, d: OutV, more: Seq<OutV>)
    ensures
        status_step(cwd, false, more) == GitStepV::<Option<crate::git_worktree::GatheredV>>::Done(
            None,
        ),
        status_step(cwd, true, Seq::empty()) matches GitStepV::Run(c) && c.cwd == cwd && c.args[0]
            == "status"@ && c.args.contains("--branch"@),
        quiet_of(s).len() == 0 ==> status_step(cwd, true, seq![s]) == GitStepV::<
            Option<crate::git_worktree::GatheredV>,
        >::Done(None),
        quiet_of(s).len() > 0 ==> status_step(cwd, true, seq![s]) == GitStepV::<
            Option<crate::git_worktree::GatheredV>,
        >::Run((CommandV { cwd, args: seq!["diff"@, "HEAD"@, "--numstat"@] })),
        ({
            let outs = seq![s, d] + more;
            let a = column_sum(lines_of(quiet_of(d)), 0);
            let r = column_sum(lines_of(quiet_of(d)), 1);
            quiet_of(s).len() > 0 && a <= u64::MAX && r <= u64::MAX && trunk_of(cwd, more) is Known
                ==> (status_step(cwd, true, outs) matches GitStepV::Done(Some(g)) && g.parse
                == status_of(lines_of(quiet_of(s))) && g.added == a && g.removed == r
                && g.default_branch == trunk_of(cwd, more)->value)
        }),
        quiet_of(s).len() > 0 && (column_sum(lines_of(quiet_of(d)), 0) > u64::MAX || column_sum(
            lines_of(quiet_of(d)),
            1,
        ) > u64::MAX) ==> status_step(cwd, true, seq![s, d] + more) is Stuck,
{
    let outs = seq![s, d] + more;
    assert(outs.skip(2) =~= more);
    if let GitStepV::Run(c) = status_step(cwd, true, Seq::empty()) {
        assert(c.args[2] == "--branch"@);
    }
}

/// `gh` is ready where it is logged in, and then tells of the pull request where
/// there is one.
pub proof fn law_a_pull_request_is_asked_for_once_ready(
    cwd: Seq<char>,
    a: OutV,
    b: OutV,
    j: JsonV,
    view: Option<JsonV>,
)
    ensures
        ship_of(cwd, Seq::empty(), view) matches GitStepV::RunGh(c) && c.cwd == cwd && c.args
            == seq!["auth"@, "status"@],
        a.code != 0 ==> ship_of(cwd, seq![a], view) == GitStepV::Done(
            (false, None::<(Seq<char>, Seq<char>, i64)>),
        ),
        a.code == 0 ==> (ship_of(cwd, seq![a], view) matches GitStepV::RunGh(c) && c.cwd == cwd
            && c.args[0] == "pr"@ && c.args[1] == "view"@),
        a.code == 0 && b.code == 0 ==> ship_of(cwd, seq![a, b], Some(j)) == GitStepV::Done(
            (true, pr_of(j)),
        ),
        a.code == 0 && b.code != 0 ==> ship_of(cwd, seq![a, b], Some(j)) == GitStepV::Done(
            (true, None::<(Seq<char>, Seq<char>, i64)>),
        ),
{
}

/// The first directory for new work has the name itself, and each further one the
/// name with its number.
pub proof fn law_directories_are_numbered(name: Seq<char>, n: nat)
    ensures
        nth_dir(name, 1) == name,
        n >= 2 ==> nth_dir(name, n) == name + seq!['-'] + dec(n),
{
    reveal_strlit("-");
    assert("-"@ =~= seq!['-']);
}

/// A worktree is removed by force exactly where that is asked for.
pub proof fn law_force_is_asked_for(o: Option<WorktreeRemoveOptions>)
    ensures
        forced(o) <==> (o matches Some(w) && w.force == Some(true)),
{
}

// ---------------------------------------------------------------------------
// Answers and labels
// ---------------------------------------------------------------------------

/// Answers to changes carry what changed; the event names the connection and the
/// reason.
pub proof fn law_answers_carry_what_changed(
    rows: Seq<JsonV>,
    shown: JsonV,
    connection: JsonV,
    id: Seq<char>,
    why: Seq<char>,
    base: Seq<char>,
)
    ensures
        field(rows_answer(rows), "ok"@) == Some(JsonV::Bool(true)),
        field(rows_answer(rows), "results"@) == Some(JsonV::Arr(rows)),
        field(changed_answer(shown), "ok"@) == Some(JsonV::Bool(true)),
        field(changed_answer(shown), "registry"@) == Some(shown),
        field(saved_answer(connection, shown), "ok"@) == Some(JsonV::Bool(true)),
        field(saved_answer(connection, shown), "connection"@) == Some(connection),
        field(saved_answer(connection, shown), "registry"@) == Some(shown),
        field(told_change(id, why), "connectionId"@) == Some(JsonV::Str(id)),
        field(told_change(id, why), "reason"@) == Some(JsonV::Str(why)),
        status_address(base).take(base.len() as int) == base,
        status_address(base).skip(base.len() as int) == "/api/status"@,
{
    broadcast use lemma_found_after_put;

    reveal_strlit("ok");
    reveal_strlit("results");
    reveal_strlit("registry");
    reveal_strlit("connection");
    reveal_strlit("connectionId");
    reveal_strlit("reason");
    assert("ok"@.len() == 2 && "results"@.len() == 7 && "registry"@.len() == 8);
    assert("connection"@.len() == 10 && "connectionId"@.len() == 12 && "reason"@.len() == 6);
    assert(status_address(base).take(base.len() as int) =~= base);
    assert(status_address(base).skip(base.len() as int) =~= "/api/status"@);
}

/// Headers are sent where there are any; a corrupt file with something in it is
/// kept under the time, and a cache counts while the file has not changed.
pub proof fn law_what_is_there_is_kept(
    h: Fields,
    t: Seq<char>,
    w: Seq<char>,
    a: nat,
    read: Option<u128>,
    now: Option<u128>,
)
    requires
        trim_text(t),
        only(w, Class::White),
    ensures
        sendable_opt(Some(h)) == sendable(h),
        sendable_opt(None).len() == 0,
        sidecar_of(t, a) == Some("json.corrupt-"@ + dec(a)),
        sidecar_of(w, a) is None,
        still_current(Some(read), now) <==> read == now,
        !still_current(None, now),
{
    lemma_as_it_is(t);
    law_blank_trims_to_nothing(w, Class::White);
}

/// The windows of two instances have different labels, and none has that of a
/// session.
pub proof fn law_labels_tell_windows_apart(n: nat, m: nat, id: Seq<char>)
    ensures
        n != m ==> instance_label_of(n) != instance_label_of(m),
        instance_label_of(n) != session_label_of(id),
        instance_label_of(n).skip(9) == dec(n),
        session_label_of(id).skip(8) == crate::windows::label_of(id),
{
    reveal_strlit("instance-");
    reveal_strlit("session-");
    assert("instance-"@.len() == 9 && "instance-"@[0] == 'i');
    assert("session-"@.len() == 8 && "session-"@[0] == 's');
    assert(instance_label_of(n).skip(9) =~= dec(n));
    assert(instance_label_of(m).skip(9) =~= dec(m));
    assert(session_label_of(id).skip(8) =~= crate::windows::label_of(id));
    crate::text_laws::law_numbers_read_back(n as int);
    crate::text_laws::law_numbers_read_back(m as int);
    assert(instance_label_of(n)[0] == 'i');
    assert(session_label_of(id)[0] == 's');
}

} // verus!
