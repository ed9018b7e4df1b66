use hermes_desktop::commands::{BackendState, BootProgress};
use hermes_desktop::gateway::{
    apply_announce, bootstrap_backend, gateway_args, gateway_env, generate_session_token,
    on_output_end, on_output_line, parse_ready_port, resolve_hermes_binary, respawn_goes_ahead,
    watch, AfterExit, Announce, Candidate, ChildEvent, GatewayState, HermesLaunch, InstallStep,
    Supervisor, Waited, Watch,
};
use hermes_desktop::git_scan::{
    enters, expand_home, git_root, scan_depth, RootStep, Scan, ScanEntry, ScanReposOptions,
    ScanRoot,
};
use hermes_desktop::json::Json;
use hermes_desktop::ssh_config::{
    drawn_path, parse_ssh_config_hosts, parse_ssh_config_includes, read_file_lossy, ssh_args,
    ssh_config_hosts, ssh_host, ssh_resolve_host, Drawn, SshWalk,
};
use hermes_desktop::terminal::{
    find_on_path, gen_id, request_object, resolve_node, terminal_start, ActorMsg, StartPayload,
    StartedInfo, TerminalEvent, TerminalState,
};
use hermes_desktop::updates::{
    hermes_home, read_branch, uninstall_run, uninstall_summary, updates_apply, updates_check,
    updates_get_branch, updates_set_branch, Inventory,
};

fn as_text(j: &Json) -> String {
    match j {
        Json::Null => "null".to_string(),
        Json::Bool(b) => b.to_string(),
        Json::Int(n) => n.to_string(),
        Json::Decimal(s) => s.clone(),
        Json::Str(s) => format!("{s:?}"),
        Json::Arr(v) => {
            format!("[{}]", v.iter().map(as_text).collect::<Vec<_>>().join(","))
        }
        Json::Obj(o) => format!(
            "{{{}}}",
            o.iter().map(|(k, v)| format!("{k:?}:{}", as_text(v))).collect::<Vec<_>>().join(",")
        ),
    }
}

fn object(items: &[(&str, Json)]) -> Json {
    let mut v: Vec<(String, Json)> =
        items.iter().map(|(k, j)| (k.to_string(), j.dup())).collect();
    v.sort_by(|a, b| a.0.cmp(&b.0));
    Json::Obj(v)
}

fn word(s: &str) -> Json {
    Json::Str(s.to_string())
}

fn some(s: &str) -> Option<String> {
    Some(s.to_string())
}

fn candidate(program: &str, usable: bool) -> Candidate {
    Candidate { program: program.to_string(), pre_args: vec![format!("{program}.py")], usable }
}

#[test]
fn a_bundled_backend_comes_first() {
    let found = resolve_hermes_binary(
        &vec![candidate("bundle", false), candidate("dev", true)],
        &vec![candidate("env", true)],
        &vec![],
        &vec![candidate("path", true)],
    );
    let found = found.unwrap_or_else(|| panic!("a backend"));
    assert_eq!((found.program.as_str(), found.pre_args), ("dev", vec!["dev.py".to_string()]));
    let later = resolve_hermes_binary(
        &vec![candidate("bundle", false)],
        &vec![],
        &vec![candidate("home", false)],
        &vec![candidate("a", false), candidate("b", true)],
    );
    assert_eq!(later.map(|l| l.program), some("b"));
    assert!(resolve_hermes_binary(&vec![], &vec![], &vec![], &vec![]).is_none());
}

#[test]
fn an_install_is_tried_twice() {
    assert!(matches!(bootstrap_backend(&vec![]), InstallStep::Try(None)));
    match bootstrap_backend(&vec![false]) {
        InstallStep::Try(Some(index)) => {
            assert_eq!(index, "https://pypi.tuna.tsinghua.edu.cn/simple")
        }
        _ => panic!("the mirror"),
    }
    assert!(matches!(bootstrap_backend(&vec![true]), InstallStep::Installed));
    assert!(matches!(bootstrap_backend(&vec![false, true]), InstallStep::Installed));
    assert!(matches!(bootstrap_backend(&vec![false, false]), InstallStep::Failed));
}

#[test]
fn a_session_token_is_forty_three_safe_characters() {
    let token = generate_session_token();
    assert_eq!(token.len(), 43);
    assert!(token.chars().all(|c| c.is_ascii_alphanumeric() || c == '-' || c == '_'));
    assert_ne!(token, generate_session_token());
}

#[test]
fn the_backend_is_started_headless() {
    let launch = HermesLaunch { program: "py".to_string(), pre_args: vec!["l.py".to_string()] };
    assert_eq!(
        gateway_args(&launch).join(" "),
        "l.py serve --host 127.0.0.1 --port 0"
    );
    let env = gateway_env("tok");
    assert!(env.contains(&("HERMES_DASHBOARD_SESSION_TOKEN".to_string(), "tok".to_string())));
    assert_eq!(env.len(), 5);
}

#[test]
fn a_ready_line_names_the_port() {
    assert_eq!(parse_ready_port("HERMES_BACKEND_READY port=4321"), Some(4321));
    assert_eq!(parse_ready_port("  [x] HERMES_DASHBOARD_READY  port=80 pid=3\n"), Some(80));
    assert_eq!(parse_ready_port("HERMES_BACKEND_READY port=70000"), None);
    assert_eq!(parse_ready_port("HERMES_BACKEND_READY port= "), None);
    assert_eq!(parse_ready_port("READY port=80"), None);
    assert_eq!(parse_ready_port("HERMES_BACKEND_READY"), None);
    assert_eq!(parse_ready_port("HERMES_BACKEND_READY port=+8"), Some(8));
}

#[test]
fn an_announcement_is_taken_once_and_in_time() {
    assert!(matches!(on_output_line("hello", false, true), Announce::Wait));
    match on_output_line("HERMES_BACKEND_READY port=9", false, true) {
        Announce::Ready(u) => assert_eq!(u, "http://127.0.0.1:9"),
        _ => panic!("ready"),
    }
    assert!(matches!(
        on_output_line("HERMES_BACKEND_READY port=9", true, true),
        Announce::Failed
    ));
    assert!(matches!(
        on_output_line("HERMES_BACKEND_READY port=9", false, false),
        Announce::Superseded
    ));
    assert!(matches!(on_output_end(true), Announce::Failed));
    assert!(matches!(on_output_end(false), Announce::Superseded));
}

#[test]
fn boot_always_resolves() {
    let mut state = BackendState::new(None);
    apply_announce(&mut state, &Announce::Superseded, "t");
    assert!(!state.is_ready());
    apply_announce(&mut state, &Announce::Ready("http://127.0.0.1:9".to_string()), "t");
    assert!(state.is_ready());
    assert_eq!(state.wait_ready(false), some("http://127.0.0.1:9"));
    assert_eq!(state.token_snapshot(), "t");
    apply_announce(&mut state, &Announce::Failed, "t");
    assert_eq!(state.base_snapshot(), "http://127.0.0.1:8080");
    assert_eq!(state.token_snapshot(), "");
    assert!(BootProgress::starting(1).progress < BootProgress::ready(1).progress);
}

#[test]
fn a_child_that_is_gone_is_not_killed_again() {
    let mut gw = GatewayState::new();
    assert_eq!(gw.poll_gateway_child(Waited::StillRuns), ChildEvent::Stopped);
    gw.adopt();
    assert_eq!(gw.poll_gateway_child(Waited::StillRuns), ChildEvent::Running);
    assert_eq!(gw.poll_gateway_child(Waited::Ended(Some(3))), ChildEvent::Exited(Some(3)));
    assert!(!gw.stop_gateway());
    assert!(gw.is_stopping());
    let mut other = GatewayState::new();
    other.adopt();
    assert_eq!(other.poll_gateway_child(Waited::WaitFailed), ChildEvent::Exited(None));
    other.adopt();
    assert!(other.stop_gateway());
    assert_eq!(other.poll_gateway_child(Waited::StillRuns), ChildEvent::Stopped);
}

#[test]
fn a_wanted_stop_is_final() {
    assert_eq!(watch(ChildEvent::Exited(Some(75)), true), Watch::Leave);
    assert_eq!(watch(ChildEvent::Exited(Some(75)), false), Watch::Gone(Some(75)));
    assert_eq!(watch(ChildEvent::Stopped, false), Watch::Leave);
    assert_eq!(watch(ChildEvent::Running, false), Watch::Keep);
    assert!(respawn_goes_ahead(false, true));
    assert!(!respawn_goes_ahead(true, true) && !respawn_goes_ahead(false, false));
}

#[test]
fn restarts_back_off_and_recover() {
    let mut s = Supervisor::new();
    let mut waits: Vec<u64> = Vec::new();
    for _ in 0..7 {
        match s.exited(Some(75), 10) {
            AfterExit::RespawnAfter(n) => waits.push(n),
            AfterExit::Report(_) => panic!("a restart"),
        }
    }
    assert_eq!(waits, vec![1000, 2000, 4000, 8000, 16000, 30000, 30000]);
    match s.exited(Some(75), 60_000) {
        AfterExit::RespawnAfter(n) => assert_eq!(n, 1000),
        AfterExit::Report(_) => panic!("a restart"),
    }
    match s.exited(Some(1), 5) {
        AfterExit::Report(j) => assert_eq!(as_text(&j), "{\"code\":1,\"signal\":null}"),
        AfterExit::RespawnAfter(_) => panic!("a report"),
    }
    match s.exited(None, 5) {
        AfterExit::Report(j) => assert_eq!(as_text(&j), "{\"code\":null,\"signal\":null}"),
        AfterExit::RespawnAfter(_) => panic!("a report"),
    }
}

#[test]
fn requests_are_objects() {
    let start = ActorMsg::Start {
        id: "t1".to_string(),
        payload: StartPayload { cwd: some("/w"), cols: Some(80), rows: None },
    };
    assert_eq!(
        as_text(&request_object(&start)),
        "{\"id\":\"t1\",\"payload\":{\"cols\":80,\"cwd\":\"/w\",\"rows\":null},\"type\":\"start\"}"
    );
    let write = ActorMsg::Write { id: "t1".to_string(), data: "ls\r".to_string() };
    assert_eq!(
        as_text(&request_object(&write)),
        "{\"data\":\"ls\\r\",\"id\":\"t1\",\"type\":\"write\"}"
    );
    let resize = ActorMsg::Resize { id: "t1".to_string(), cols: 1, rows: 2 };
    assert_eq!(
        as_text(&request_object(&resize)),
        "{\"cols\":1,\"id\":\"t1\",\"rows\":2,\"type\":\"resize\"}"
    );
    assert_eq!(
        as_text(&request_object(&ActorMsg::Cwd { id: "t1".to_string() })),
        "{\"id\":\"t1\",\"type\":\"cwd\"}"
    );
    assert_eq!(
        as_text(&request_object(&ActorMsg::Dispose { id: "t1".to_string() })),
        "{\"id\":\"t1\",\"type\":\"dispose\"}"
    );
}

fn start_of(id: &str) -> ActorMsg {
    ActorMsg::Start {
        id: id.to_string(),
        payload: StartPayload { cwd: None, cols: None, rows: None },
    }
}

#[test]
fn a_start_is_answered_once() {
    let mut t = TerminalState::new();
    let started = object(&[("type", word("started")), ("id", word("a")), ("shell", word("sh"))]);
    assert!(matches!(t.received(&started), TerminalEvent::Ignored));
    t.sent(&start_of("a"));
    t.sent(&start_of("b"));
    match t.received(&started) {
        TerminalEvent::Started { id, answer: Ok(info) } => {
            assert_eq!((id.as_str(), info.shell.as_str(), info.cwd), ("a", "sh", None))
        }
        _ => panic!("started"),
    }
    assert!(matches!(t.received(&started), TerminalEvent::Ignored));
    let error = object(&[("type", word("error")), ("id", word("b"))]);
    match t.received(&error) {
        TerminalEvent::Started { id, answer: Err(e) } => {
            assert_eq!((id.as_str(), e.as_str()), ("b", "sidecar error"))
        }
        _ => panic!("an error"),
    }
}

#[test]
fn answers_do_not_mix() {
    let mut t = TerminalState::new();
    t.sent(&start_of("a"));
    t.sent(&ActorMsg::Cwd { id: "a".to_string() });
    let cwd = object(&[("type", word("cwd")), ("id", word("b")), ("cwd", word("/x"))]);
    assert!(matches!(t.received(&cwd), TerminalEvent::Ignored));
    let mine = object(&[("type", word("cwd")), ("id", word("a")), ("cwd", word("/x"))]);
    match t.received(&mine) {
        TerminalEvent::Cwd { id, cwd } => assert_eq!((id.as_str(), cwd), ("a", some("/x"))),
        _ => panic!("a directory"),
    }
    assert!(matches!(t.received(&mine), TerminalEvent::Ignored));
    let error = object(&[("type", word("error")), ("id", word("a")), ("message", word("no"))]);
    match t.received(&error) {
        TerminalEvent::Started { answer: Err(e), .. } => assert_eq!(e, "no"),
        _ => panic!("an error"),
    }
}

#[test]
fn output_and_exits_are_passed_on() {
    let mut t = TerminalState::new();
    let data = object(&[("type", word("data")), ("id", word("a")), ("data", word("hi"))]);
    match t.received(&data) {
        TerminalEvent::Emit { event, payload } => {
            assert_eq!((event.as_str(), as_text(&payload).as_str()), ("hermes:terminal:a:data", "\"hi\""))
        }
        _ => panic!("data"),
    }
    let exit = object(&[("type", word("exit")), ("id", word("a")), ("code", Json::Int(3))]);
    match t.received(&exit) {
        TerminalEvent::Emit { event, payload } => {
            assert_eq!(event, "hermes:terminal:a:exit");
            assert_eq!(as_text(&payload), "{\"code\":3,\"signal\":null}");
        }
        _ => panic!("an exit"),
    }
    assert!(matches!(t.received(&object(&[("type", word("noise"))])), TerminalEvent::Ignored));
    assert!(matches!(t.received(&Json::Null), TerminalEvent::Ignored));
}

#[test]
fn session_ids_differ() {
    assert_eq!(gen_id(255, 7), "term-ff-7");
    assert_eq!(gen_id(0, 10), "term-0-10");
    assert_ne!(gen_id(0x11, 1), gen_id(0x1, 11));
    let info = StartedInfo { cwd: None, id: "x".to_string(), shell: "sh".to_string() };
    assert_eq!(terminal_start(Ok(info), "mine").map(|i| i.id), Ok("mine".to_string()));
    assert_eq!(
        terminal_start(Err("no".to_string()), "mine").map(|i| i.id),
        Err("no".to_string())
    );
}

#[test]
fn the_runtime_is_named_or_found() {
    let none: Option<String> = None;
    assert_eq!(resolve_node(&some(" n1 "), &some("n2"), &none), Ok("n1".to_string()));
    assert_eq!(resolve_node(&some("  "), &some("n2"), &none), Ok("n2".to_string()));
    assert_eq!(resolve_node(&none, &none, &some("/bin/node")), Ok("/bin/node".to_string()));
    assert_eq!(
        resolve_node(&none, &none, &none),
        Err("Could not locate a node executable to run the terminal sidecar".to_string())
    );
    assert_eq!(find_on_path("a;;b"), vec!["a".to_string(), "b".to_string()]);
    assert!(find_on_path("").is_empty());
}

#[test]
fn ssh_hosts_are_plain_and_unique() {
    let text = "# Host no\nHost web db *.x !y z?\n  HOST web new\nHostName q\nhost\tw\n";
    assert_eq!(parse_ssh_config_hosts(text), vec!["web", "db", "new"]);
    let drawn = parse_ssh_config_includes("Include ~/a  b/*\ninclude /c\n#include d\n");
    assert_eq!(drawn, vec!["~/a", "b/*", "/c"]);
    assert!(matches!(drawn_path("~/a"), Drawn::BelowHome(p) if p == "a"));
    assert!(matches!(drawn_path("/c"), Drawn::Given(p) if p == "/c"));
    assert_eq!(
        as_text(&ssh_config_hosts(&vec!["web".to_string()])),
        "{\"hosts\":[\"web\"]}"
    );
}

#[test]
fn no_ssh_file_is_read_twice() {
    let mut w = SshWalk::start("/root", false);
    let mut read: Vec<String> = Vec::new();
    while let Some(path) = w.next() {
        let (text, targets): (&str, Vec<String>) = match path.as_str() {
            "/root" => ("Host r\n", vec!["/a".to_string(), "/b".to_string()]),
            "/a" => ("Host a r\n", vec!["/root".to_string(), "/b".to_string()]),
            _ => ("Host b\n", vec!["/a".to_string()]),
        };
        w.take_in(&Some(text.to_string()), &targets);
        read.push(path);
    }
    assert_eq!(read, vec!["/root", "/a", "/b"]);
    assert_eq!(w.hosts, vec!["r", "a", "b"]);
}

#[test]
fn a_config_in_another_encoding_still_counts() {
    let bytes = b"# caf\xe9\nHost box\n".to_vec();
    let text = read_file_lossy(&Some(bytes));
    assert_eq!(text, some("# caf\u{fffd}\nHost box\n"));
    let mut w = SshWalk::start("c", false);
    assert_eq!(w.next(), some("c"));
    w.take_in(&text, &Vec::new());
    assert_eq!(w.hosts, vec!["box"]);
    assert_eq!(read_file_lossy(&None), None);
}

#[test]
fn another_spelling_is_the_same_ssh_file() {
    let read = |windows: bool, targets: &[&str]| -> Vec<String> {
        let mut w = SshWalk::start("/r/config", windows);
        let mut out: Vec<String> = Vec::new();
        while let Some(path) = w.next() {
            let drawn = if out.is_empty() {
                targets.iter().map(|s| s.to_string()).collect()
            } else {
                Vec::new()
            };
            w.take_in(&Some(String::new()), &drawn);
            out.push(path);
        }
        out
    };
    let spelled = ["/r//config", "/r/./config", "/r/a", "/r/a/", "/r\\a", "/r/A"];
    assert_eq!(read(false, &spelled), vec!["/r/config", "/r/a", "/r\\a", "/r/A"]);
    assert_eq!(read(true, &spelled), vec!["/r/config", "/r/a", "/r/A"]);
    assert_eq!(read(true, &["C:/x", "c:\\x"]), vec!["/r/config", "C:/x"]);
}

#[test]
fn the_ssh_walk_ends_at_its_depth() {
    let mut w = SshWalk::start("0", false);
    let mut read: usize = 0;
    while let Some(path) = w.next() {
        read += 1;
        let n: usize = path.parse().unwrap_or(0);
        w.take_in(&Some(String::new()), &vec![(n + 1).to_string()]);
    }
    assert_eq!(read, 9);
    let mut gone = SshWalk::start("x", false);
    assert_eq!(gone.next(), some("x"));
    gone.take_in(&None, &vec!["y".to_string()]);
    assert_eq!(gone.next(), None);
}

#[test]
fn ssh_output_is_read_first_value_first() {
    let text = "User root\nhostname box\nport x\nport 2222\nIdentityFile ~/.ssh/id\nhostname other\n";
    let got = ssh_resolve_host(true, 0, text, "").unwrap_or(Json::Null);
    assert_eq!(
        as_text(&got),
        "{\"hostname\":\"box\",\"identityFile\":\"~/.ssh/id\",\"port\":2222,\"user\":\"root\"}"
    );
    assert_eq!(
        ssh_resolve_host(false, 255, "", " ").err(),
        some("ssh -G failed: exit code 255")
    );
    assert_eq!(ssh_resolve_host(false, 1, "", " bad\n").err(), some("ssh -G failed: bad"));
    assert_eq!(ssh_host("  "), Err("SSH host is required.".to_string()));
    assert_eq!(ssh_host(" box "), Ok("box".to_string()));
    assert_eq!(ssh_args("-oProxy"), vec!["-G", "--", "-oProxy"]);
}

#[test]
fn a_chosen_channel_is_read_back() {
    for (name, want) in [(" nightly ", "nightly"), ("stable", "stable"), ("beta", "stable")] {
        let stored = Some(updates_set_branch(name));
        assert_eq!(read_branch(&stored), want);
        assert_eq!(
            as_text(&updates_get_branch(&stored)),
            format!("{{\"branch\":\"{want}\"}}")
        );
    }
    assert_eq!(read_branch(&None), "stable");
    assert_eq!(read_branch(&Some(object(&[("branch", word("main"))]))), "stable");
}

#[test]
fn the_installer_updates_this_build() {
    let check = updates_check(5);
    assert!(matches!(check.get("supported"), Some(Json::Bool(false))));
    assert!(matches!(check.get("fetchedAt"), Some(Json::Int(5))));
    assert_eq!(check.get_str("reason"), some("installer-managed"));
    match updates_check(u64::MAX).get("fetchedAt") {
        Some(Json::Decimal(d)) => assert_eq!(d, "18446744073709551615"),
        _ => panic!("a large number"),
    }
    assert_eq!(updates_apply().get_str("error"), some("installer-managed"));
}

#[test]
fn data_is_deleted_only_on_request() {
    let run = |m: Option<&str>| uninstall_run(&m.map(|s| s.to_string()));
    assert!(!run(Some("gui")).deletes_data && !run(None).deletes_data);
    assert!(run(Some(" lite ")).deletes_data && run(Some("full")).deletes_data);
    assert_eq!(run(Some("lite")).answer.get_str("mode"), some("lite"));
    assert_eq!(run(Some("full")).answer.get_str("mode"), some("full"));
    assert_eq!(run(Some("gui")).answer.get_str("mode"), some("gui"));
    let bad = run(Some("all"));
    assert!(!bad.deletes_data);
    assert_eq!(bad.answer.get_str("error"), some("invalid-mode"));
}

#[test]
fn an_inventory_lists_what_is_owned() {
    let i = Inventory {
        hermes_home: "/h".to_string(),
        bundled_backend: true,
        install_dir: some("/opt/x"),
        config_dir: "/c".to_string(),
        config_exists: false,
        platform: "linux".to_string(),
        running_app: None,
    };
    let j = uninstall_summary(&i);
    assert_eq!(j.get_str("hermes_home"), some("/h"));
    assert!(matches!(j.get("packaged_app_paths"), Some(Json::Arr(v)) if v.len() == 1));
    assert!(matches!(j.get("running_app_path"), Some(Json::Null)));
    assert_eq!(j.get_str("probe"), some("tauri"));
}

#[test]
fn the_data_home_ignores_blank_variables() {
    let none: Option<String> = None;
    let at = |o: Option<&str>, win: bool, l: Option<&str>, u: Option<&str>, h: Option<&str>| {
        let f = |x: Option<&str>| x.map(|s| s.to_string());
        let d = hermes_home(&f(o), win, &f(l), &f(u), &f(h));
        format!("{}|{}", d.base, d.below.join("/"))
    };
    assert!(none.is_none());
    assert_eq!(at(Some("/x"), false, None, None, Some("/home/u")), "/x|");
    assert_eq!(at(Some("  "), false, None, None, Some("/home/u")), "/home/u|.hermes");
    assert_eq!(at(None, true, Some("C:/L"), None, None), "C:/L|hermes");
    assert_eq!(at(None, true, Some(" "), None, Some("H")), "H|AppData/Local/hermes");
    assert_eq!(at(None, true, None, Some("U"), Some("H")), "U|AppData/Local/hermes");
}

#[test]
fn the_way_up_ends_at_the_first_root() {
    assert_eq!(git_root(&vec![], true), RootStep::Look(0));
    assert_eq!(git_root(&vec![false], true), RootStep::Look(1));
    assert_eq!(git_root(&vec![false, true], false), RootStep::Found(1));
    assert_eq!(git_root(&vec![false], false), RootStep::Absent);
    assert_eq!(git_root(&vec![false; 50], true), RootStep::Absent);
}

fn scan_entry(name: &str, path: &str, is_dir: bool) -> ScanEntry {
    ScanEntry { name: name.to_string(), path: path.to_string(), is_dir }
}

#[test]
fn a_scan_goes_depth_first_and_reports_once() {
    let mut s = Scan::start(&vec!["/a".to_string(), "/b".to_string()], 1);
    let mut order: Vec<String> = Vec::new();
    while let Some(dir) = s.next() {
        let listing = match dir.as_str() {
            "/a" => Some(vec![
                scan_entry("x", "/a/x", true),
                scan_entry("file", "/a/file", false),
                scan_entry(".hidden", "/a/.hidden", true),
                scan_entry("node_modules", "/a/node_modules", true),
                scan_entry("Y", "/A/X", true),
            ]),
            "/a/x" | "/A/X" => Some(vec![scan_entry(".git", "g", true)]),
            "/b" => Some(vec![scan_entry("deep", "/b/deep", true)]),
            "/b/deep" => Some(vec![scan_entry("deeper", "/b/deep/deeper", true)]),
            _ => None,
        };
        let name = dir.rsplit('/').next().map(|s| s.to_string());
        s.visit(&listing, &name);
        order.push(dir);
    }
    assert_eq!(order, vec!["/a", "/a/x", "/A/X", "/b", "/b/deep"]);
    assert_eq!(s.found.len(), 1);
    assert_eq!((s.found[0].root.as_str(), s.found[0].label.as_str()), ("/a/x", "x"));
}

#[test]
fn scan_options_have_defaults() {
    let o = |d: Option<i32>, e: Option<bool>| ScanReposOptions {
        max_depth: d,
        enabled: e,
        exclude_paths: None,
    };
    assert_eq!(scan_depth(&o(None, None)), Some(3));
    assert_eq!(scan_depth(&o(Some(-4), Some(true))), Some(0));
    assert_eq!(scan_depth(&o(Some(9), None)), Some(9));
    assert_eq!(scan_depth(&o(None, Some(false))), None);
    assert!(enters("src") && !enters(".git") && !enters("vendor") && !enters("venv"));
    assert!(matches!(expand_home(" ~ "), ScanRoot::Home));
    assert!(matches!(expand_home("~/p"), ScanRoot::BelowHome(p) if p == "p"));
    assert!(matches!(expand_home("~\\p"), ScanRoot::BelowHome(p) if p == "p"));
    assert!(matches!(expand_home("q"), ScanRoot::Given(p) if p == "q"));
}
