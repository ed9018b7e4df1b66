use hermes_desktop::escape::{escape, percent_decode, Keep};
use hermes_desktop::git::{
    base_branch_list, branch_list, checked, main_root, parse_ref_lines, parse_worktrees, quiet,
    sanitize_branch, strip_all_prefixes, GitOut,
};
use hermes_desktop::git_review::{
    cap_text, commit_context, created_pr_url, fill_untracked_counts, has_staged, needs_count,
    parse_status_v2, parse_status_v2_lines, review_list_range, review_list_uncommitted,
    review_scope, ship_info, sort_files, status_letter, ReviewFile, ReviewScope,
};
use hermes_desktop::git_status::{
    diff_numstat, diff_numstat_files, parse_repo_status, repo_status, resolve_rename,
    untracked_insertions,
};
use hermes_desktop::json::{set_field, Json};
use hermes_desktop::paths::{extension, file_name, path_names};
use hermes_desktop::text::{
    contains, decimal_int, hex_number, is_before, join, lines, parse_i64, parse_u64, replace, split,
    strip_prefix, strip_suffix, to_ascii_lower, trim, words, Class,
};

fn boxed(v: &[&str]) -> Vec<String> {
    v.iter().map(|s| s.to_string()).collect()
}

fn one(s: &str) -> Option<String> {
    Some(s.to_string())
}

#[test]
fn text_agrees_with_std() {
    let samples = ["", " a b ", "\u{a0}x\u{2003}", "a\r\nb\n\nc", "x,y,,", "ÄÖ,\t1 2", "\n"];
    for s in samples {
        assert_eq!(trim(s), s.trim());
        assert_eq!(lines(s), s.lines().map(|l| l.to_string()).collect::<Vec<_>>());
        assert_eq!(split(s, ','), s.split(',').map(|l| l.to_string()).collect::<Vec<_>>());
        assert_eq!(
            words(s, Class::White),
            s.split_whitespace().map(|l| l.to_string()).collect::<Vec<_>>()
        );
        assert_eq!(to_ascii_lower(s), s.to_ascii_lowercase());
        assert_eq!(replace(s, ',', "--"), s.replace(',', "--"));
        for t in samples {
            assert_eq!(is_before(s, t), s < t, "{s:?} {t:?}");
            assert_eq!(contains(s, t), s.contains(t));
            assert_eq!(strip_prefix(s, t).as_deref(), s.strip_prefix(t));
            assert_eq!(strip_suffix(s, t).as_deref(), s.strip_suffix(t));
        }
    }
    assert_eq!(join(&boxed(&["a", "b"]), ", "), "a, b");
}

#[test]
fn numbers_agree_with_std() {
    for s in ["", "+", "0", "+7", "-1", "18446744073709551615", "18446744073709551616", " 1", "1_0"] {
        assert_eq!(parse_u64(s, 10), s.parse::<u64>().ok(), "{s}");
        assert_eq!(parse_i64(s), s.parse::<i64>().ok(), "{s}");
        assert_eq!(parse_u64(s, 16), u64::from_str_radix(s, 16).ok(), "{s}");
    }
    assert_eq!(parse_i64("-9223372036854775808"), Some(i64::MIN));
    assert_eq!(parse_u64("fF", 16), Some(255));
    assert_eq!(decimal_int(i128::from(i64::MIN)), "-9223372036854775808");
    assert_eq!((hex_number(0), hex_number(255)), ("0".to_string(), "ff".to_string()));
}

#[test]
fn decoding_undoes_encoding() {
    for s in ["", "a b/c", "日本%20", "\0~"] {
        assert_eq!(percent_decode(&escape(Keep::Unreserved, s)), one(s));
        assert_eq!(percent_decode(&escape(Keep::Path, s)), one(s));
    }
    assert_eq!(escape(Keep::Path, "/a:b c"), "/a:b%20c");
    assert_eq!(percent_decode("%e2%82"), None);
    assert_eq!((percent_decode("%zz"), percent_decode("%4")), (None, None));
}

#[test]
fn paths_have_names() {
    assert_eq!(path_names("/a/./b/", false), boxed(&["a", "b"]));
    assert_eq!(path_names("C:\\a/b", true), boxed(&["a", "b"]));
    assert_eq!((file_name("/a/..", false), file_name("/", false)), (None, None));
    assert_eq!(file_name("a\\b", false), one("a\\b"));
    assert_eq!((extension("a.tar.gz"), extension(".a"), extension("a.")), (one("gz"), None, one("")));
}

#[test]
fn objects_keep_their_keys_sorted() {
    let mut o: Vec<(String, Json)> = Vec::new();
    set_field(&mut o, "b", Json::Int(1));
    set_field(&mut o, "a", Json::Int(2));
    set_field(&mut o, "b", Json::Int(3));
    let keys: Vec<&str> = o.iter().map(|p| p.0.as_str()).collect();
    assert_eq!(keys, vec!["a", "b"]);
    let j = Json::Obj(o);
    assert!(matches!(j.get("b"), Some(Json::Int(3))));
    assert!(j.equals(&j.dup()) && !j.equals(&Json::Null) && j.is_object());
    assert!(Json::Decimal("1.5".to_string()).equals(&Json::Decimal("1.5".to_string())));
}

#[test]
fn runs_are_judged_by_their_code() {
    let run = |code: i32, out: &str, err: &str| GitOut {
        code,
        stdout: out.to_string(),
        stderr: err.to_string(),
    };
    assert_eq!(checked(&run(0, " a \n", "")), Ok("a".to_string()));
    assert!(checked(&run(1, "", "boom\n")).err().unwrap_or_default().contains("boom"));
    assert_eq!((quiet(&run(0, "a\n", "")), quiet(&run(1, "a", ""))), ("a".to_string(), String::new()));
}

#[test]
fn refs_and_branch_names() {
    assert_eq!(parse_ref_lines("main\n\n origin/HEAD \norigin/x\n"), boxed(&["main", "origin/HEAD", "origin/x"]));
    assert_eq!(strip_all_prefixes("refs/heads/refs/heads/a", "refs/heads/"), "a");
    assert!(!sanitize_branch(" a b..c~ ").contains(' '));
}

#[test]
fn worktrees_are_read_in_order() {
    let t = parse_worktrees(
        "worktree /r\nHEAD x\nbranch refs/heads/main\n\nworktree /w\ndetached\nlocked why\n",
    );
    assert_eq!(t.len(), 2);
    assert!(t[0].is_main && !t[1].is_main && t[1].detached && t[1].locked);
    assert_eq!((t[0].branch.as_deref(), main_root(&t)), (Some("main"), one("/r")));
    let b = branch_list("main\ndev\n", &t, &one("main"));
    assert!(b[0].checked_out && b[0].is_default && !b[1].checked_out && !b[1].is_default);
    assert_eq!(b[0].worktree_path, one("/r"));
    let b = base_branch_list("main\norigin/dev\n", "origin/dev", &one("main"));
    assert!(!b[0].is_default && b[1].is_default && b[1].is_remote && !b[0].is_remote);
    let b = base_branch_list("main\n", "", &one("main"));
    assert!(b[0].is_default);
}

#[test]
fn renames_are_resolved() {
    assert_eq!(resolve_rename("a.txt => b.txt"), "b.txt");
    assert_eq!(resolve_rename("src/{old => new}/x"), "src/new/x");
    assert_eq!(resolve_rename("src/{old => }/x"), "src/x");
    assert_eq!(resolve_rename(" plain "), "plain");
}

#[test]
fn counts_are_added_up() {
    let out = "3\t1\ta\n-\t-\tbin\n2\t0\t{x => y}/b\n";
    assert_eq!(diff_numstat(out), Some((5, 1)));
    let f = diff_numstat_files(out);
    assert_eq!((f.len(), f[2].path.as_str(), f[1].added), (3, "y/b", 0));
    assert_eq!(diff_numstat("18446744073709551615\t0\ta\n1\t0\tb\n"), None);
    assert_eq!(untracked_insertions(true, 5, &Some(b"a\nb".to_vec())), 2);
    assert_eq!(untracked_insertions(true, 5, &Some(b"a\n\0".to_vec())), 0);
    assert_eq!(untracked_insertions(true, 1_048_577, &Some(b"a\n".to_vec())), 0);
    assert_eq!(untracked_insertions(false, 1, &Some(b"a\n".to_vec())), 0);
    assert_eq!(untracked_insertions(true, 1, &None), 0);
}

#[test]
fn a_status_is_put_together() {
    let p = parse_repo_status("# branch.head main\n# branch.ab +2 -3\n? new.txt\n");
    assert_eq!((p.branch.as_deref(), p.ahead, p.behind.abs()), (Some("main"), 2, 3));
    assert_eq!(p.untracked, boxed(&["new.txt"]));
    let s = repo_status(p, 1, 2, &vec![4], one("main")).unwrap_or_else(|| panic!("a status"));
    assert_eq!((s.added, s.removed, s.untracked, s.detached), (5, 2, 1, false));
    let p = parse_repo_status("# branch.head (detached)\n");
    let s = repo_status(p, u64::MAX, 0, &vec![1], None);
    assert!(s.is_none());
}

fn reviewed(path: &str, status: &str) -> ReviewFile {
    ReviewFile {
        path: path.to_string(),
        added: 0,
        removed: 0,
        status: status.to_string(),
        staged: false,
    }
}

#[test]
fn a_review_is_sorted() {
    let v = sort_files(vec![reviewed("b", "M"), reviewed("a/z", "M"), reviewed("B", "?")]);
    let p: Vec<&str> = v.iter().map(|f| f.path.as_str()).collect();
    assert_eq!(p, vec!["B", "a/z", "b"]);
    assert!(needs_count(&v[0]) && !needs_count(&v[1]));
    let v = fill_untracked_counts(v, &vec![7, 8, 9]);
    assert_eq!((v[0].added, v[1].added), (7, 0));
}

#[test]
fn status_lines_name_paths() {
    let e = parse_status_v2("? a b.txt").unwrap_or_else(|| panic!("an entry"));
    assert!(e.untracked && e.path == "a b.txt" && status_letter(&e) == "?");
    let e = parse_status_v2("1 M. N... 1 1 1 h i src/x").unwrap_or_else(|| panic!("an entry"));
    assert_eq!((e.path.as_str(), e.index, e.working), ("src/x", 'M', '.'));
    let e = parse_status_v2("2 R. N... 1 1 1 h i R100 new").unwrap_or_else(|| panic!("an entry"));
    assert_eq!((e.path.as_str(), status_letter(&e)), ("new", "R".to_string()));
    let e = parse_status_v2("u UU N... 1 1 1 1 h i j both").unwrap_or_else(|| panic!("an entry"));
    assert_eq!((e.path.as_str(), e.index), ("both", 'U'));
    assert!(parse_status_v2("# branch.head x").is_none() && parse_status_v2("1 x").is_none());
    assert!(has_staged(&parse_status_v2_lines("1 M. N... 1 1 1 h i x\n")));
    assert!(!has_staged(&parse_status_v2_lines("? x\n1 .M N... 1 1 1 h i y\n")));
}

#[test]
fn reviews_follow_their_scope() {
    assert!(matches!(review_scope("branch", &None, &None), ReviewScope::Nothing));
    assert!(matches!(review_scope("lastTurn", &None, &None), ReviewScope::Nothing));
    assert!(matches!(review_scope("x", &one("b"), &one("r")), ReviewScope::Uncommitted));
    match review_scope("branch", &one("b"), &None) {
        ReviewScope::Range { base, range, with_untracked } => {
            assert_eq!((base.as_str(), range.as_str(), with_untracked), ("b", "b...HEAD", false));
        }
        _ => panic!("a range"),
    }
    let counts = diff_numstat_files("1\t2\tz\n3\t4\ta\n");
    let v = review_list_range(&counts, &one("? new\n? a\n"));
    let p: Vec<String> = v.iter().map(|f| format!("{}{}", f.status, f.path)).collect();
    assert_eq!(p, boxed(&["Ma", "?new", "Mz"]));
    let v = review_list_uncommitted("1 M. N... 1 1 1 h i a\n", &counts, &counts);
    assert!(matches!(v, Some(v) if v[0].added == 6 && v[0].removed == 8 && v[0].staged));
    let huge = diff_numstat_files("18446744073709551615\t0\ta\n");
    assert!(review_list_uncommitted("1 M. N... 1 1 1 h i a\n", &huge, &huge).is_none());
}

#[test]
fn a_commit_context_is_cut_and_noted() {
    assert_eq!(cap_text("abcdef", 4, "cut"), "abcd\n# cut: 2 chars omitted\n");
    assert_eq!(cap_text("abc", 3, "cut"), "abc");
    let c = commit_context("diff", "? a\n? b\n", " s \n");
    assert_eq!(c.diff, "diff\n# New (untracked) files:\n#   a\n#   b\n");
    assert_eq!(c.recent, "s");
    let many: String = (0..82).map(|i| format!("? f{i}\n")).collect();
    assert!(commit_context("", &many, "").diff.ends_with("\n#   ... 2 more omitted\n"));
}

#[test]
fn pull_requests_are_read() {
    let view = Json::Obj(vec![
        ("number".to_string(), Json::Int(4)),
        ("state".to_string(), Json::Str("OPEN".to_string())),
        ("url".to_string(), Json::Str("http://p".to_string())),
    ]);
    let s = ship_info(true, &Some(view.dup()));
    assert!(matches!(s.pr, Some(p) if p.number == 4 && p.url == "http://p" && p.state == "OPEN"));
    let s = ship_info(false, &Some(view));
    assert!(!s.gh_ready && s.pr.is_none());
    assert!(ship_info(true, &Some(Json::Null)).pr.is_none());
    assert_eq!(created_pr_url(true, "Creating\n\nhttp://p\n"), Ok("http://p".to_string()));
    assert_eq!(
        created_pr_url(false, ""),
        Err("gh pr create failed (is gh installed and authenticated?)".to_string())
    );
}

#[test]
fn a_path_may_hold_spaces() {
    let p = parse_repo_status(
        "1 .M N... 100644 100644 100644 aaa bbb my file.txt\n2 R. N... 1 1 1 h i R100 new name\told name\nu UU N... 1 1 1 1 h i j both sides\n",
    );
    let paths: Vec<&str> = p.files.iter().map(|f| f.path.as_str()).collect();
    assert_eq!(paths, vec!["my file.txt", "new name", "both sides"]);
    assert!(!p.files[0].staged && p.files[0].unstaged && !p.files[0].conflicted);
    let s = repo_status(p, 0, 0, &vec![], None).unwrap_or_else(|| panic!("a status"));
    assert_eq!((s.changed, s.staged, s.unstaged, s.conflicted), (3, 1, 1, 1));
    let paths: Vec<String> = parse_status_v2_lines(
        "1 M. N... 1 1 1 h i a b\n2 R. N... 1 1 1 h i R100 c d\te\nu UU N... 1 1 1 1 h i j f g\n",
    )
    .into_iter()
    .map(|e| e.path)
    .collect();
    assert_eq!(paths, vec!["a b", "c d", "f g"]);
}
