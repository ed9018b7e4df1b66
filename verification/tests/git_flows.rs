use hermes_desktop::git::{checked, GitOut, WorktreeEntry};
use hermes_desktop::git_flow::{
    base_branch_list_step, branch_list_step, branch_switch, file_diff, git_review_commit,
    git_review_commit_context, git_review_create_pr, git_review_diff, git_review_list,
    git_review_push, git_review_rev_parse, git_review_revert, git_review_ship_info,
    git_review_stage, git_review_unstage, ok_answer, worktree_list, Command, GitStep,
};
use hermes_desktop::git_worktree::{
    git_worktree_add, repo_status_step, slugify_work, unique_worktree_dir, work_slug,
    worktree_remove, WorktreeAddOptions, WorktreeRemoveOptions,
};
use hermes_desktop::json::Json;

fn out(code: i32, stdout: &str) -> GitOut {
    GitOut { code, stdout: stdout.to_string(), stderr: String::new() }
}

fn failed(stderr: &str) -> GitOut {
    GitOut { code: 128, stdout: String::new(), stderr: stderr.to_string() }
}

fn line(c: &Command) -> String {
    format!("{}$ {}", c.cwd, c.args.join(" "))
}

fn shape<T>(s: &GitStep<T>) -> String {
    match s {
        GitStep::Run(c) => format!("git {}", line(c)),
        GitStep::RunGh(c) => format!("gh {}", line(c)),
        GitStep::PickDir { root, slug } => format!("pick {root} {slug}"),
        GitStep::Stuck => "stuck".to_string(),
        GitStep::Done(_) => "done".to_string(),
    }
}

fn value<T>(s: GitStep<T>) -> T {
    match s {
        GitStep::Done(v) => v,
        other => panic!("not done: {}", shape(&other)),
    }
}

fn text_field(j: &Json, key: &str) -> String {
    j.get_str(key).unwrap_or_else(|| panic!("no {key}"))
}

#[test]
fn a_run_that_must_succeed_reports_its_complaint() {
    assert_eq!(checked(&out(0, " ok \n")), Ok("ok".to_string()));
    assert_eq!(checked(&out(7, "x")), Err("git exited 7".to_string()));
    assert_eq!(checked(&failed(" fatal: no\n")), Err("fatal: no".to_string()));
    assert_eq!(checked(&out(-1, "")), Err("git exited -1".to_string()));
}

#[test]
fn staging_takes_one_run() {
    let one = Some("a b.txt".to_string());
    assert_eq!(shape(&git_review_stage("/r", &one, &vec![])), "git /r$ add -- a b.txt");
    assert_eq!(shape(&git_review_stage("/r", &None, &vec![])), "git /r$ add -A");
    assert_eq!(value(git_review_stage("/r", &None, &vec![out(0, "")])), Ok(()));
    assert_eq!(
        value(git_review_stage("/r", &None, &vec![failed("no")])),
        Err("no".to_string())
    );
    assert_eq!(shape(&git_review_unstage("/r", &one, &vec![])), "git /r$ reset -q HEAD -- a b.txt");
    assert_eq!(shape(&git_review_unstage("/r", &None, &vec![])), "git /r$ reset -q HEAD");
    assert_eq!(value(git_review_unstage("/r", &None, &vec![out(0, "")])), Ok(()));
}

#[test]
fn reverting_goes_on_after_a_failure() {
    let one = Some("f".to_string());
    assert_eq!(shape(&git_review_revert("/r", &one, &vec![])), "git /r$ checkout HEAD -- f");
    assert_eq!(
        shape(&git_review_revert("/r", &one, &vec![failed("x")])),
        "git /r$ clean -fd -- f"
    );
    assert_eq!(shape(&git_review_revert("/r", &None, &vec![])), "git /r$ checkout HEAD -- .");
    assert_eq!(shape(&git_review_revert("/r", &None, &vec![out(0, "")])), "git /r$ clean -fd");
    assert_eq!(value(git_review_revert("/r", &None, &vec![out(0, ""), failed("x")])), Ok(()));
    assert_eq!(value(git_review_revert("/r", &one, &vec![failed("x"), out(0, "")])), Ok(()));
    assert_eq!(
        value(git_review_revert("/r", &one, &vec![failed("x"), failed("y")])),
        Err("y".to_string())
    );
}

#[test]
fn a_reference_is_resolved_or_absent() {
    assert_eq!(shape(&git_review_rev_parse("/r", &None, &vec![])), "git /r$ rev-parse HEAD");
    let named = Some("v1".to_string());
    assert_eq!(shape(&git_review_rev_parse("/r", &named, &vec![])), "git /r$ rev-parse v1");
    assert_eq!(
        value(git_review_rev_parse("/r", &None, &vec![out(0, "abc\n")])),
        Some("abc".to_string())
    );
    assert_eq!(value(git_review_rev_parse("/r", &None, &vec![out(128, "abc\n")])), None);
    assert_eq!(value(git_review_rev_parse("/r", &None, &vec![out(0, "\n")])), None);
}

#[test]
fn pushing_uses_the_upstream_or_makes_one() {
    assert_eq!(
        shape(&git_review_push("/r", &vec![])),
        "git /r$ rev-parse --abbrev-ref --symbolic-full-name @{u}"
    );
    let up = || out(0, "origin/main\n");
    assert_eq!(shape(&git_review_push("/r", &vec![up()])), "git /r$ push");
    assert_eq!(value(git_review_push("/r", &vec![up(), out(0, "")])), Ok(()));
    assert_eq!(
        value(git_review_push("/r", &vec![up(), failed("rejected")])),
        Err("rejected".to_string())
    );
    let no = || failed("no upstream");
    assert_eq!(
        shape(&git_review_push("/r", &vec![no()])),
        "git /r$ symbolic-ref --short HEAD"
    );
    assert_eq!(
        shape(&git_review_push("/r", &vec![no(), out(0, "feat\n")])),
        "git /r$ push -u origin feat"
    );
    assert_eq!(value(git_review_push("/r", &vec![no(), out(0, "feat\n"), out(0, "")])), Ok(()));
    assert_eq!(value(git_review_push("/r", &vec![no(), failed("detached")])), Ok(()));
}

#[test]
fn a_commit_stages_everything_only_when_nothing_is_staged() {
    let go = |outs: Vec<GitOut>| git_review_commit("/r", "msg", false, &outs);
    assert_eq!(shape(&go(vec![])), "git /r$ diff --cached --name-only");
    assert_eq!(shape(&go(vec![out(0, "f\n")])), "git /r$ commit -m msg");
    assert_eq!(shape(&go(vec![out(0, "")])), "git /r$ add -A");
    assert_eq!(value(go(vec![out(0, ""), failed("locked")])), Err("locked".to_string()));
    assert_eq!(shape(&go(vec![out(0, ""), out(0, "")])), "git /r$ commit -m msg");
    assert_eq!(value(go(vec![out(0, "f\n"), out(0, "")])), Ok(()));
    assert_eq!(
        value(go(vec![out(0, "f\n"), failed("hook")])),
        Err("hook".to_string())
    );
}

#[test]
fn nothing_is_pushed_before_the_commit() {
    let go = |outs: Vec<GitOut>| git_review_commit("/r", "m", true, &outs);
    assert_eq!(value(go(vec![out(0, "f"), failed("hook")])), Err("hook".to_string()));
    assert_eq!(
        shape(&go(vec![out(0, "f"), out(0, "")])),
        "git /r$ rev-parse --abbrev-ref --symbolic-full-name @{u}"
    );
    assert_eq!(shape(&go(vec![out(0, "f"), out(0, ""), out(0, "o/m")])), "git /r$ push");
    assert_eq!(
        value(go(vec![out(0, ""), out(0, ""), out(0, ""), out(0, "o/m"), out(0, "")])),
        Ok(())
    );
}

#[test]
fn a_file_diff_falls_back_to_an_untracked_one() {
    let go = |outs: Vec<GitOut>| file_diff("/r", "f", &outs);
    assert_eq!(shape(&go(vec![])), "git /r$ diff HEAD -- f");
    assert_eq!(value(go(vec![out(0, "+x\n")])), "+x");
    assert_eq!(shape(&go(vec![out(0, "")])), "git /r$ status --porcelain -- f");
    assert_eq!(value(go(vec![out(0, ""), out(0, " M f")])), "");
    assert_eq!(
        shape(&go(vec![out(0, ""), out(0, "?? f")])),
        "git /r$ diff --no-index -- /dev/null f"
    );
    assert_eq!(value(go(vec![out(0, ""), out(0, "?? f"), out(1, "+new\n")])), "+new\n");
}

#[test]
fn a_review_diff_follows_its_scope() {
    let none: Option<String> = None;
    let branch = |outs: Vec<GitOut>| git_review_diff("/r", "f", "branch", &None, None, &outs);
    assert_eq!(shape(&branch(vec![])), "git /r$ rev-parse --abbrev-ref origin/HEAD");
    assert_eq!(shape(&branch(vec![out(0, "origin/dev")])), "git /r$ merge-base HEAD origin/dev");
    assert_eq!(
        shape(&branch(vec![out(0, "origin/dev"), out(0, "abc")])),
        "git /r$ diff abc...HEAD -- f"
    );
    assert_eq!(value(branch(vec![out(0, ""), out(0, "abc"), out(0, " d\n")])), " d\n");
    let nowhere = || failed("none");
    assert_eq!(
        value(branch(vec![nowhere(), nowhere(), nowhere(), nowhere(), nowhere()])),
        ""
    );
    let base = Some("b1".to_string());
    assert_eq!(
        shape(&git_review_diff("/r", "f", "lastTurn", &base, None, &vec![])),
        "git /r$ diff b1 -- f"
    );
    assert_eq!(value(git_review_diff("/r", "f", "lastTurn", &none, None, &vec![])), "");
    assert_eq!(
        shape(&git_review_diff("/r", "f", "uncommitted", &none, Some(true), &vec![])),
        "git /r$ diff --cached -- f"
    );
    let plain = |outs: Vec<GitOut>| git_review_diff("/r", "f", "uncommitted", &None, None, &outs);
    assert_eq!(shape(&plain(vec![])), "git /r$ diff -- f");
    assert_eq!(value(plain(vec![out(0, "+x\n")])), "+x\n");
    assert_eq!(
        shape(&plain(vec![out(0, " \n")])),
        "git /r$ diff --no-index -- /dev/null f"
    );
    assert_eq!(value(plain(vec![failed("x"), out(1, "+all\n")])), "+all\n");
}

#[test]
fn a_review_lists_a_branch() {
    let go = |outs: Vec<GitOut>| git_review_list("/r", "branch", &None, &outs);
    assert_eq!(
        shape(&go(vec![out(0, ""), out(0, "abc")])),
        "git /r$ diff --numstat abc...HEAD"
    );
    let list = value(go(vec![out(0, ""), out(0, "abc"), out(0, "3\t1\tz.rs\n-\t-\ta.bin\n")]));
    assert_eq!(list.base, Some("abc".to_string()));
    let seen: Vec<(String, u64, u64)> =
        list.files.iter().map(|f| (f.path.clone(), f.added, f.removed)).collect();
    assert_eq!(seen, vec![("a.bin".to_string(), 0, 0), ("z.rs".to_string(), 3, 1)]);
}

#[test]
fn a_review_of_the_last_turn_adds_untracked_files() {
    let base = Some("b1".to_string());
    let go = |outs: Vec<GitOut>| git_review_list("/r", "lastTurn", &base, &outs);
    assert_eq!(shape(&go(vec![])), "git /r$ diff --numstat b1");
    assert_eq!(
        shape(&go(vec![out(0, "1\t0\tm.rs")])),
        "git /r$ status --porcelain=v2 --untracked-files=normal"
    );
    let list = value(go(vec![out(0, "1\t0\tm.rs"), out(0, "? new.rs\n? m.rs")]));
    let names: Vec<&str> = list.files.iter().map(|f| f.path.as_str()).collect();
    assert_eq!(names, vec!["m.rs", "new.rs"]);
    assert_eq!(list.files[1].status, "?");
    let none: Option<String> = None;
    let empty = value(git_review_list("/r", "lastTurn", &none, &vec![]));
    assert!(empty.files.is_empty() && empty.base.is_none());
}

#[test]
fn a_review_of_uncommitted_work_adds_both_counts() {
    let none: Option<String> = None;
    let go = |outs: Vec<GitOut>| git_review_list("/r", "uncommitted", &none, &outs);
    assert_eq!(shape(&go(vec![])), "git /r$ status --porcelain=v2 --untracked-files=normal");
    assert_eq!(shape(&go(vec![out(0, "")])), "git /r$ diff --numstat --cached");
    assert_eq!(shape(&go(vec![out(0, ""), out(0, "")])), "git /r$ diff --numstat");
    let status = "1 MM N... 100644 100644 100644 aaa bbb f.rs";
    let list = value(go(vec![out(0, status), out(0, "2\t1\tf.rs"), out(0, "3\t4\tf.rs")]));
    assert_eq!((list.files[0].added, list.files[0].removed), (5, 5));
    assert!(list.files[0].staged);
    let huge = format!("{}\t0\tf.rs", u64::MAX);
    assert_eq!(shape(&go(vec![out(0, status), out(0, &huge), out(0, "1\t0\tf.rs")])), "stuck");
}

#[test]
fn a_commit_context_prefers_what_is_staged() {
    let go = |outs: Vec<GitOut>| git_review_commit_context("/r", &outs);
    assert_eq!(shape(&go(vec![])), "git /r$ status --porcelain=v2 --untracked-files=all");
    let staged = "1 M. N... 100644 100644 100644 aaa bbb f.rs\n? n.txt";
    assert_eq!(shape(&go(vec![out(0, staged)])), "git /r$ diff --cached");
    assert_eq!(shape(&go(vec![out(0, "? n.txt")])), "git /r$ diff HEAD");
    let unstaged = "1 .M N... 100644 100644 100644 aaa bbb f.rs";
    assert_eq!(shape(&go(vec![out(0, unstaged)])), "git /r$ diff HEAD");
    assert_eq!(
        shape(&go(vec![out(0, staged), out(0, "D")])),
        "git /r$ log -n 10 --pretty=format:%s"
    );
    let c = value(go(vec![out(0, staged), out(0, "D\n"), out(0, " one\ntwo\n")]));
    assert_eq!(c.diff, "D\n\n# New (untracked) files:\n#   n.txt\n");
    assert_eq!(c.recent, "one\ntwo");
    let split = format!("{}é", "x".repeat(119_999));
    assert_eq!(shape(&go(vec![out(0, ""), out(0, &split)])), "stuck");
}

#[test]
fn a_long_diff_is_cut() {
    let long = "x".repeat(120_003);
    let c = value(git_review_commit_context("/r", &vec![out(0, ""), out(0, &long), out(0, "")]));
    let want = format!(
        "{}\n# diff truncated for commit-message generation: 3 chars omitted\n",
        "x".repeat(120_000)
    );
    assert_eq!(c.diff, want);
}

#[test]
fn a_pull_request_is_opened_even_when_the_push_fails() {
    let go = |outs: Vec<GitOut>| git_review_create_pr("/r", &outs);
    assert_eq!(
        shape(&go(vec![out(0, "o/m"), failed("rejected")])),
        "gh /r$ pr create --fill"
    );
    let made = value(go(vec![out(0, "o/m"), out(0, ""), out(0, "note\nhttps://x/pull/1\n\n")]));
    assert_eq!(text_field(&made.unwrap_or(Json::Null), "url"), "https://x/pull/1");
    assert_eq!(
        value(go(vec![out(0, "o/m"), out(0, ""), out(1, "")])).err(),
        Some("gh pr create failed (is gh installed and authenticated?)".to_string())
    );
}

#[test]
fn ship_info_asks_gh_twice() {
    let go = |outs: Vec<GitOut>, view: Option<Json>| git_review_ship_info("/r", &outs, &view);
    assert_eq!(shape(&go(vec![], None)), "gh /r$ auth status");
    let no = value(go(vec![out(1, "")], None));
    assert!(!no.gh_ready && no.pr.is_none());
    assert_eq!(
        shape(&go(vec![out(0, "")], None)),
        "gh /r$ pr view --json url,state,number"
    );
    assert!(value(go(vec![out(0, ""), out(1, "")], None)).gh_ready);
    let view = Json::Obj(vec![
        ("number".to_string(), Json::Int(7)),
        ("state".to_string(), Json::Str("OPEN".to_string())),
        ("url".to_string(), Json::Str("u".to_string())),
    ]);
    let pr = value(go(vec![out(0, ""), out(0, "")], Some(view))).pr;
    let pr = pr.unwrap_or_else(|| panic!("a pull request"));
    assert_eq!((pr.url.as_str(), pr.state.as_str(), pr.number), ("u", "OPEN", 7));
}

#[test]
fn switching_needs_a_name() {
    assert_eq!(
        value(branch_switch("/r", " ?! ", &vec![])).err(),
        Some("Branch name is required.".to_string())
    );
    assert_eq!(shape(&branch_switch("/r", "my branch", &vec![])), "git /r$ switch my-branch");
    let done = value(branch_switch("/r", "my branch", &vec![out(0, "")]));
    assert_eq!(text_field(&done.unwrap_or(Json::Null), "branch"), "my-branch");
    assert_eq!(
        value(branch_switch("/r", "x", &vec![failed("dirty")])).err(),
        Some("dirty".to_string())
    );
}

#[test]
fn branches_know_where_they_are_checked_out() {
    let trees = "worktree /r\nbranch refs/heads/main\n\nworktree /r/.worktrees/x\nbranch refs/heads/x\nlocked";
    let go = |outs: Vec<GitOut>| branch_list_step("/r", &outs);
    assert_eq!(
        shape(&go(vec![])),
        "git /r$ for-each-ref --format=%(refname:short) --sort=-committerdate refs/heads"
    );
    assert!(value(go(vec![failed("no repo")])).is_empty());
    assert_eq!(shape(&go(vec![out(0, "main\nx")])), "git /r$ worktree list --porcelain");
    let list = value(go(vec![out(0, "main\nx\ny"), out(0, trees), out(0, "origin/main")]));
    assert_eq!(list.len(), 3);
    assert!(list[0].is_default && list[0].checked_out);
    assert_eq!(list[1].worktree_path, Some("/r/.worktrees/x".to_string()));
    assert!(!list[2].checked_out && list[2].worktree_path.is_none());
}

#[test]
fn the_default_branch_is_the_remote_one_or_a_usual_trunk() {
    let go = |outs: Vec<GitOut>| base_branch_list_step("/r", &outs);
    assert_eq!(
        shape(&go(vec![out(0, "main")])),
        "git /r$ symbolic-ref --quiet --short refs/remotes/origin/HEAD"
    );
    assert_eq!(
        shape(&go(vec![out(0, "main"), out(0, "")])),
        "git /r$ rev-parse --abbrev-ref origin/HEAD"
    );
    assert_eq!(
        shape(&go(vec![out(0, "main"), out(0, ""), out(0, "origin/HEAD")])),
        "git /r$ rev-parse --verify --quiet refs/heads/main"
    );
    let refs = out(0, "master\norigin/master");
    let list = value(go(vec![refs, out(0, ""), failed(""), failed(""), out(0, "abc")]));
    assert!(list[0].is_default && !list[0].is_remote);
    assert!(!list[1].is_default && list[1].is_remote);
    let remote = value(go(vec![
        out(0, "main\norigin/main"),
        out(0, "origin/main"),
        out(0, "origin/main"),
    ]));
    assert!(!remote[0].is_default && remote[1].is_default);
}

#[test]
fn the_first_worktree_is_the_main_one() {
    let go = |outs: Vec<GitOut>| worktree_list("/r", &outs);
    let trees: Vec<WorktreeEntry> =
        value(go(vec![out(0, "worktree /a\ndetached\n\nworktree /b\nbranch refs/heads/b")]));
    assert!(trees[0].is_main && trees[0].detached && !trees[1].is_main);
    assert_eq!(trees[1].branch, Some("b".to_string()));
    assert!(value(go(vec![failed("no")])).is_empty());
}

#[test]
fn work_names_are_slugs() {
    assert_eq!(slugify_work("  My Feature! "), "my-feature");
    assert_eq!(slugify_work("***"), "work");
    assert_eq!(work_slug("Größe"), Some("größe".to_string()));
    assert_eq!(work_slug(&"a".repeat(50)), Some("a".repeat(40)));
    assert_eq!(work_slug(&format!("{}é", "a".repeat(39))), None);
}

#[test]
fn worktree_dirs_are_numbered_from_two() {
    assert_eq!(unique_worktree_dir("x", 1), "x");
    assert_eq!(unique_worktree_dir("x", 2), "x-2");
    assert_eq!(unique_worktree_dir("x", 10), "x-10");
}

fn fresh(name: Option<&str>, base: Option<&str>) -> WorktreeAddOptions {
    WorktreeAddOptions {
        name: name.map(|s| s.to_string()),
        branch: None,
        base: base.map(|s| s.to_string()),
        existing_branch: None,
    }
}

#[test]
fn a_worktree_is_made_step_by_step() {
    let o = fresh(Some("My Work"), None);
    let none: Option<String> = None;
    let dir = Some("/root/.worktrees/my-work".to_string());
    assert_eq!(
        shape(&git_worktree_add("/r", &o, 0, &none, &vec![])),
        "git /r$ rev-parse --is-inside-work-tree"
    );
    assert_eq!(
        shape(&git_worktree_add("/r", &o, 0, &none, &vec![out(0, "true")])),
        "git /r$ rev-parse --verify HEAD"
    );
    let ready = || vec![out(0, "true"), out(0, "abc")];
    assert_eq!(
        shape(&git_worktree_add("/r", &o, 0, &none, &ready())),
        "git /r$ worktree list --porcelain"
    );
    let mut listed = ready();
    listed.push(out(0, "worktree /root\nbranch refs/heads/main"));
    assert_eq!(shape(&git_worktree_add("/r", &o, 0, &none, &listed)), "pick /root my-work");
    assert_eq!(
        shape(&git_worktree_add("/r", &o, 0, &dir, &listed)),
        "git /root$ worktree add -b hermes/my-work /root/.worktrees/my-work"
    );
    listed.push(failed("fatal: a branch named 'x' ALREADY EXISTS"));
    assert_eq!(
        shape(&git_worktree_add("/r", &o, 0, &dir, &listed)),
        "git /root$ worktree add /root/.worktrees/my-work hermes/my-work"
    );
    listed.push(out(0, ""));
    let place = value(git_worktree_add("/r", &o, 0, &dir, &listed)).unwrap_or(Json::Null);
    assert_eq!(text_field(&place, "path"), "/root/.worktrees/my-work");
    assert_eq!(text_field(&place, "branch"), "hermes/my-work");
    assert_eq!(text_field(&place, "repoRoot"), "/root");
}

#[test]
fn a_directory_becomes_a_repository_first() {
    let o = fresh(Some("w"), None);
    let none: Option<String> = None;
    let go = |outs: Vec<GitOut>| git_worktree_add("/d", &o, 0, &none, &outs);
    assert_eq!(shape(&go(vec![failed("no repo")])), "git /d$ init");
    assert_eq!(
        shape(&go(vec![failed("no repo"), out(0, "")])),
        "git /d$ -c user.email=hermes@localhost -c user.name=Hermes commit --allow-empty -m Initial commit"
    );
    assert_eq!(
        value(go(vec![failed("no repo"), failed("denied")])).err(),
        Some("denied".to_string())
    );
    assert_eq!(
        shape(&go(vec![out(0, "true"), failed("unborn"), out(0, ""), failed("")])),
        "pick /d w"
    );
}

#[test]
fn a_remote_base_is_fetched_and_not_tracked() {
    let o = fresh(None, Some("origin/dev"));
    let dir = Some("/r/.worktrees/w".to_string());
    let mut outs = vec![out(0, "true"), out(0, "abc"), out(0, "worktree /r")];
    assert_eq!(
        shape(&git_worktree_add("/r", &o, 0xabc, &None, &outs)),
        "pick /r work-abc"
    );
    assert_eq!(shape(&git_worktree_add("/r", &o, 0xabc, &dir, &outs)), "git /r$ fetch origin dev");
    outs.push(failed("offline"));
    assert_eq!(
        shape(&git_worktree_add("/r", &o, 0xabc, &dir, &outs)),
        "git /r$ worktree add -b hermes/work-abc /r/.worktrees/w --no-track origin/dev"
    );
    outs.push(failed("bad base"));
    assert_eq!(
        value(git_worktree_add("/r", &o, 0xabc, &dir, &outs)).err(),
        Some("bad base".to_string())
    );
}

#[test]
fn an_existing_branch_gets_a_directory_unless_it_is_the_trunk() {
    let o = |name: &str| WorktreeAddOptions {
        name: None,
        branch: None,
        base: None,
        existing_branch: Some(name.to_string()),
    };
    let none: Option<String> = None;
    assert_eq!(
        value(git_worktree_add("/r", &o(" "), 0, &none, &vec![])).err(),
        Some("Branch name is required.".to_string())
    );
    let trunk = || vec![out(0, "origin/main")];
    assert_eq!(
        shape(&git_worktree_add("/r", &o("main"), 0, &none, &trunk())),
        "git /r$ switch main"
    );
    assert_eq!(
        shape(&git_worktree_add("/r", &o("feat/x"), 0, &none, &trunk())),
        "pick /r feat-x"
    );
    let dir = Some("/r/.worktrees/feat-x".to_string());
    assert_eq!(
        shape(&git_worktree_add("/r", &o("feat/x"), 0, &dir, &trunk())),
        "git /r$ worktree add /r/.worktrees/feat-x feat/x"
    );
    let uncuttable = format!("{}é", "a".repeat(39));
    assert_eq!(shape(&git_worktree_add("/r", &o(&uncuttable), 0, &none, &trunk())), "stuck");
}

#[test]
fn a_worktree_is_removed_from_the_root() {
    let none: Option<WorktreeRemoveOptions> = None;
    let force = Some(WorktreeRemoveOptions { force: Some(true) });
    let list = || out(0, "worktree /root\n");
    assert_eq!(
        shape(&worktree_remove("/r", "/w", &none, &vec![])),
        "git /r$ worktree list --porcelain"
    );
    assert_eq!(
        shape(&worktree_remove("/r", "/w", &none, &vec![list()])),
        "git /root$ worktree remove /w"
    );
    assert_eq!(
        shape(&worktree_remove("/r", "/w", &force, &vec![failed("")])),
        "git /r$ worktree remove --force /w"
    );
    let done = value(worktree_remove("/r", "/w", &none, &vec![list(), out(0, "")]));
    assert_eq!(text_field(&done.unwrap_or(Json::Null), "removed"), "/w");
}

#[test]
fn a_status_is_gathered_from_several_runs() {
    let go = |is_dir: bool, outs: Vec<GitOut>| repo_status_step("/r", is_dir, &outs);
    assert!(value(go(false, vec![])).is_none());
    assert_eq!(
        shape(&go(true, vec![])),
        "git /r$ status --porcelain=v2 --branch --untracked-files=normal"
    );
    assert!(value(go(true, vec![failed("no repo")])).is_none());
    let head = "# branch.head main\n# branch.ab +2 -1\n? new.txt";
    assert_eq!(shape(&go(true, vec![out(0, head)])), "git /r$ diff HEAD --numstat");
    let g = value(go(true, vec![out(0, head), out(0, "3\t1\ta\n4\t0\tb"), out(0, "origin/main")]));
    let g = g.unwrap_or_else(|| panic!("a status"));
    assert_eq!((g.added, g.removed), (7, 1));
    assert_eq!((g.parse.ahead, g.parse.behind), (2, 1));
    assert_eq!(g.parse.branch, Some("main".to_string()));
    assert_eq!(g.default_branch, Some("main".to_string()));
    let huge = format!("{}\t0\ta\n1\t0\tb", u64::MAX);
    assert_eq!(shape(&go(true, vec![out(0, head), out(0, &huge)])), "stuck");
}

#[test]
fn an_answer_without_news_is_ok() {
    assert!(matches!(ok_answer().get("ok"), Some(Json::Bool(true))));
}
