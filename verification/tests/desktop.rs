use hermes_desktop::asset_server::{
    base_url, choose_file, content_type_for, first_candidate, handle_request, sanitize_path,
    AssetBase, AssetStep, Method,
};
use hermes_desktop::bootstrap::empty_state;
use hermes_desktop::capture::{
    all_zero, capture_target, capture_window, check_extent, encode_png, finish_capture,
    image_text_from, list_windows, offered_windows, swap_red_and_blue, window_entry, window_listed,
    CaptureTarget, FoundWindow, WindowInfo,
};
use hermes_desktop::commands::{
    api_outcome, boot_progress_snapshot, build_connection, entry_ws_url, get_gateway_ws_url,
    get_version, guess_mime, plan_request, read_dir, read_file_data_url, read_file_text,
    request_connection, to_ws_scheme, upload_content_type, verb_for, ApiRequest, BackendState,
    BootProgress, Carries, DirEntry, UploadPayload, Verb,
};
use hermes_desktop::desktop_misc::{
    check_link_size, check_link_url, check_rename, composer_image_name, fetch_link_title,
    get_recent_logs, hermes_home, link_title, picker_for, plan_image_write, save_image_buffer,
    settings_get_default_project_dir, settings_pick_default_project_dir,
    settings_set_default_project_dir, tail_lines, title_from_group, ImageDir, Picker,
    SelectPathsOptions,
};
use hermes_desktop::json::Json;
use hermes_desktop::preview_watch::{
    change_report, check_watch_target, event_concerns, file_path_from_preview_target,
    new_watch_id, on_event, on_tick, path_to_file_url, watch_answer, Dispatch, DispatchAction,
};
use hermes_desktop::screenshots::{
    check_clear, clean_result, dir_stat, exclude_entry, exclude_outcome, gitdir_line, overlay_url,
    project_row, tally, EntrySize,
};
use hermes_desktop::windows::{
    build_window_url, byte_len, encode_route_segment, instance_label, label_text, session_key,
    session_label, slug_label, truncate_bytes,
};

fn owned(s: &str) -> Option<String> {
    Some(s.to_string())
}

fn names(v: &[&str]) -> Vec<String> {
    v.iter().map(|s| s.to_string()).collect()
}

// The backend.

#[test]
fn the_announced_address_is_used() {
    let mut b = BackendState::new(owned("env"));
    assert!(!b.is_ready());
    assert_eq!((b.wait_ready(false), b.wait_ready(true)), (None, owned("http://127.0.0.1:8080")));
    assert_eq!(b.token_snapshot(), "env");
    b.mark_ready("http://127.0.0.1:9//".to_string(), "tok".to_string());
    assert!(b.is_ready());
    assert_eq!(b.wait_ready(false), owned("http://127.0.0.1:9"));
    assert_eq!((b.base_snapshot(), b.token_snapshot()), ("http://127.0.0.1:9".to_string(), "tok".to_string()));
    b.set_token(String::new());
    assert_eq!(b.token_snapshot(), "");
    let c = build_connection(&b, owned("p"));
    assert_eq!((c.ws_url.as_str(), c.mode.as_str(), c.profile), ("ws://127.0.0.1:9/api/ws", "local", owned("p")));
    let j = get_gateway_ws_url(&b, None);
    assert_eq!(j.get_str("wsUrl"), owned("ws://127.0.0.1:9/api/ws"));
}

#[test]
fn sockets_follow_their_base() {
    assert_eq!(to_ws_scheme("https://a"), "wss://a");
    assert_eq!(to_ws_scheme("http://a"), "ws://a");
    assert_eq!(to_ws_scheme("a"), "a");
    assert_eq!(entry_ws_url("https://a", "t"), "wss://a/api/ws?token=t");
    assert_eq!(entry_ws_url("https://a", ""), "wss://a/api/ws");
}

#[test]
fn boot_progress_grows() {
    let stages = [BootProgress::starting(1), BootProgress::installing(2), BootProgress::ready(3)];
    assert!(stages[0].progress < stages[1].progress && stages[1].progress < stages[2].progress);
    let e = BootProgress::error("boom".to_string(), 4);
    assert_eq!((e.error, e.running, e.timestamp), (owned("boom"), false, 4));
    let mut b = BackendState::new(None);
    assert_eq!(boot_progress_snapshot(&b, 5).phase, "backend.starting");
    b.mark_ready("u".to_string(), "t".to_string());
    assert_eq!(boot_progress_snapshot(&b, 5).phase, "backend.ready");
}

fn request(path: &str, method: Option<&str>) -> ApiRequest {
    ApiRequest {
        path: path.to_string(),
        method: method.map(|s| s.to_string()),
        body: None,
        upload: None,
        timeout_ms: None,
        profile: None,
        connection_id: None,
    }
}

#[test]
fn requests_are_planned() {
    let extra = vec![("X-A".to_string(), "1".to_string())];
    let p = plan_request(&request("//api/x", Some("pOsT")), "http://b", "t", &extra);
    assert_eq!((p.url.as_str(), p.verb, p.timeout_ms), ("http://b/api/x", Verb::Post, 20_000));
    assert_eq!(p.headers.len(), 2);
    assert_eq!(p.headers[0], ("X-Hermes-Session-Token".to_string(), "t".to_string()));
    assert_eq!(p.carries, Carries::Nothing);
    let mut r = request("x", None);
    r.body = Some(Json::Null);
    r.timeout_ms = Some(5);
    let p = plan_request(&r, "http://b", "", &vec![]);
    assert_eq!((p.verb, p.timeout_ms, p.headers.len(), p.carries), (Verb::Get, 5, 0, Carries::Body));
    r.upload = Some(UploadPayload {
        filename: "f".to_string(),
        content_type: None,
        bytes: vec![1],
    });
    assert_eq!(plan_request(&r, "b", "", &vec![]).carries, Carries::Upload);
    let u = UploadPayload { filename: "f".to_string(), content_type: owned("a/b"), bytes: vec![] };
    assert_eq!(upload_content_type(&u), "a/b");
    assert_eq!(upload_content_type(&r.upload.unwrap_or(u)), "application/octet-stream");
    assert_eq!((verb_for("PUT"), verb_for("PATCH"), verb_for("DELETE"), verb_for("get")),
        (Verb::Put, Verb::Patch, Verb::Delete, Verb::Get));
    assert_eq!(request_connection(&owned(" lab ")), owned("lab"));
    assert_eq!((request_connection(&owned("local")), request_connection(&owned(" ")), request_connection(&None)), (None, None, None));
}

#[test]
fn replies_become_values_or_errors() {
    assert_eq!(api_outcome(500, &b"no".to_vec(), None).err(), owned("backend 500: no"));
    assert_eq!(
        api_outcome(200, &b"a\"b\n".to_vec(), None).err(),
        owned("{\"raw\":\"a\\\"b\\n\"}")
    );
    assert!(matches!(api_outcome(204, &vec![], Some(Json::Int(1))), Ok(Json::Int(1))));
}

#[test]
fn listings_are_sorted() {
    let e = |n: &str, d: bool| DirEntry { name: n.to_string(), path: format!("/{n}"), is_directory: d };
    let r = read_dir("/", Some(vec![e("b", false), e("A", false), e("z", true), e("É", false), e("Y", true)]));
    let shown: Vec<&str> = r.entries.iter().map(|e| e.name.as_str()).collect();
    assert_eq!(shown, vec!["Y", "z", "A", "b", "É"]);
    assert_eq!(r.error, None);
    let r = read_dir("/gone", None);
    assert_eq!((r.entries.len(), r.error), (0, owned("cannot read directory: /gone")));
}

#[test]
fn files_are_read_as_text_or_data() {
    let r = read_file_text("/f".to_string(), "hé".as_bytes().to_vec());
    assert_eq!((r.text.as_str(), r.byte_size, r.binary, r.mime_type), ("hé", Some(3), Some(false), None));
    let r = read_file_text("/f".to_string(), vec![0xff]);
    assert_eq!((r.text.as_str(), r.binary, r.mime_type), ("", Some(true), owned("application/octet-stream")));
    assert_eq!(read_file_data_url("/a/P.PNG", false, &vec![1, 2, 3]), "data:image/png;base64,AQID");
    assert_eq!(guess_mime("C:\\x\\a.Md", true), "text/plain");
    assert_eq!(guess_mime("C:\\x.d\\a", true), "application/octet-stream");
    assert_eq!(guess_mime("/x/.json", false), "application/octet-stream");
    assert_eq!(guess_mime("/x/a.tsx", false), "text/javascript");
    let v = get_version("1".to_string(), "p".to_string(), &None);
    assert_eq!(v.hermes_root, "");
}

#[test]
fn nothing_is_installed_at_first() {
    let s = empty_state();
    assert!(!s.active && s.error.is_none() && s.log.is_empty());
}

// The asset server.

#[test]
fn no_path_leaves_the_root() {
    for windows in [false, true] {
        let path = |raw: &str| sanitize_path(raw, windows);
        assert_eq!(path("/a/./b//c.js"), Some(names(&["a", "b", "c.js"])));
        assert_eq!(path("/"), Some(names(&[])));
        for bad in ["/../x", "/a/%2e%2E/x", "/a%5Cb", "/a\\b", "/%00", "/%zz%", "/%ff"] {
            assert_eq!(path(bad), None, "{bad}");
        }
        assert_eq!(path("/a%2Fb"), Some(names(&["a", "b"])));
    }
    for drive in ["/C:", "/a/c%3Ax", "/D:/x"] {
        assert_eq!(sanitize_path(drive, true), None, "{drive}");
    }
    assert_eq!(sanitize_path("/a/c%3Ax", false), Some(names(&["a", "c:x"])));
    assert_eq!(sanitize_path("/1:/x", true), Some(names(&["1:", "x"])));
}

#[test]
fn only_reads_are_answered() {
    assert!(matches!(handle_request(Method::Other, "/", true), AssetStep::Status(405)));
    assert!(matches!(handle_request(Method::Get, "/..?x", false), AssetStep::Status(403)));
    match handle_request(Method::Head, "/a/b.js?v=../1#x", false) {
        AssetStep::Look(v) => assert_eq!(v, names(&["a", "b.js"])),
        AssetStep::Status(n) => panic!("{n}"),
    }
}

#[test]
fn routes_fall_back_to_the_index() {
    let route = names(&["settings"]);
    assert_eq!(first_candidate(&route, true), names(&["settings", "index.html"]));
    assert_eq!(choose_file(&route, true, true, true), Some(names(&["settings", "index.html"])));
    assert_eq!(choose_file(&route, false, false, true), Some(names(&["index.html"])));
    assert_eq!(choose_file(&names(&["a.js"]), false, false, true), None);
    assert_eq!(choose_file(&route, false, false, false), None);
}

#[test]
fn content_types_carry_a_charset() {
    assert_eq!(content_type_for("a.html"), "text/html; charset=utf-8");
    assert_eq!(content_type_for("a.svg"), "image/svg+xml; charset=utf-8");
    assert_eq!(content_type_for("a.png"), "image/png");
    assert_eq!(content_type_for("a"), "application/octet-stream");
}

#[test]
fn windows_load_one_address() {
    let mut b = AssetBase::new();
    assert_eq!(b.get(), None);
    assert_eq!(base_url(false, &None, &b.get()), "http://tauri.localhost");
    b.set("http://127.0.0.1:5".to_string());
    assert_eq!(base_url(false, &None, &b.get()), "http://127.0.0.1:5");
    assert_eq!(base_url(true, &None, &b.get()), "http://localhost:5174");
    assert_eq!(base_url(true, &owned("http://d"), &None), "http://d");
}

// Windows.

#[test]
fn window_addresses_carry_their_route() {
    assert_eq!(build_window_url("http://b//", &None, true), "http://b/");
    assert_eq!(build_window_url("http://b", &owned("a b/ü"), false), "http://b/?win=secondary#/a%20b%2F%C3%BC");
    assert_eq!(build_window_url("http://b", &owned("s"), true), "http://b/?win=secondary&watch=1#/s");
    assert_eq!(encode_route_segment("-_.~!"), "-_.~%21");
}

#[test]
fn window_labels_are_short_slugs() {
    assert_eq!(label_text("--a.b ü--"), "a-b-ü");
    assert_eq!(slug_label("!!"), "win");
    assert_eq!(session_label("a/b"), "session-a-b");
    assert_eq!(session_label(&"x".repeat(60)), format!("session-{}", "x".repeat(48)));
    assert_eq!(session_label(&format!("{}ü", "x".repeat(47))), format!("session-{}", "x".repeat(47)));
    assert_eq!(session_label(&"ü".repeat(30)), format!("session-{}", "ü".repeat(24)));
    assert_eq!((byte_len("ü"), truncate_bytes("üa", 2)), (2, "ü".to_string()));
    assert_ne!(instance_label(1), instance_label(11));
    assert_eq!(instance_label(7), "instance-7");
    assert_eq!(session_key(" s "), Ok("s".to_string()));
    assert_eq!(session_key(" "), Err("sessionId is required.".to_string()));
}

// Previews.

#[test]
fn a_file_url_leads_back() {
    let url = path_to_file_url("C:\\My Files\\ü%.md");
    assert_eq!(url, "file:///C:/My%20Files/%C3%BC%25.md");
    assert_eq!(file_path_from_preview_target(&url, true), Ok("C:/My Files/ü%.md".to_string()));
    assert_eq!(file_path_from_preview_target(&url, false), Ok("/C:/My Files/ü%.md".to_string()));
    assert_eq!(file_path_from_preview_target("file://localhost/a", false), Ok("/a".to_string()));
    assert_eq!(file_path_from_preview_target(" /plain ", false), Ok("/plain".to_string()));
    assert_eq!(
        file_path_from_preview_target("file://host/a", false),
        Err("not a local file URL: file://host/a".to_string())
    );
    assert_eq!(
        file_path_from_preview_target("file:///%ff", false),
        Err("invalid file URL: file:///%ff".to_string())
    );
    assert_eq!(
        file_path_from_preview_target(" ", false),
        Err("Preview target is required.".to_string())
    );
}

#[test]
fn a_change_is_reported_after_quiet() {
    let d = on_event(Dispatch::Idle, true, 1_000);
    assert_eq!(on_tick(d, 1_119), (d, DispatchAction::Wait));
    let d = on_event(d, true, 1_100);
    assert_eq!(on_event(d, false, 1_150), d);
    assert_eq!(on_tick(d, 1_219).1, DispatchAction::Wait);
    assert_eq!(on_tick(d, 1_220), (Dispatch::Idle, DispatchAction::Report));
    assert_eq!(on_tick(Dispatch::Idle, 9_999).1, DispatchAction::Wait);
    assert!(event_concerns(&owned("a"), &owned("a")) && !event_concerns(&owned("a"), &owned("b")));
    assert!(event_concerns(&None, &owned("b")) && event_concerns(&owned("a"), &None));
}

#[test]
fn watches_have_ids_and_reports() {
    let id = new_watch_id();
    assert_eq!(id.len(), 18);
    assert!(id.chars().all(|c| c.is_ascii_digit() || ('a'..='f').contains(&c)));
    assert_ne!(id, new_watch_id());
    assert_eq!(watch_answer("i", "/p").get_str("path"), owned("/p"));
    let r = change_report("i", "a b");
    assert_eq!((r.get_str("id"), r.get_str("url")), (owned("i"), owned("file:///a%20b")));
    assert_eq!(check_watch_target(false, "file", "x"), Err("Not a file: x".to_string()));
    assert_eq!(check_watch_target(true, "file", "x"), Ok(()));
}

// Captures.

#[test]
fn a_window_id_names_the_window() {
    for h in [0, -5, i64::MAX, i64::MIN] {
        let w = window_entry(h, "t", "p", 3);
        assert_eq!(capture_target(&w.id), Ok(CaptureTarget::Window(h)));
    }
    assert_eq!(capture_target("screen"), Ok(CaptureTarget::Screen));
    assert_eq!(capture_target("x"), Err("invalid window id 'x'".to_string()));
    assert_eq!(capture_target("9223372036854775808"), Err("invalid window id '9223372036854775808'".to_string()));
    assert!(window_listed(true, "t", false, 2, 1));
    assert!(!window_listed(false, "t", false, 2, 1) && !window_listed(true, "", false, 2, 1));
    assert!(!window_listed(true, "t", true, 2, 1) && !window_listed(true, "t", false, 1, 1));
    assert!(!window_listed(true, "t", false, 0, 1));
    assert!(list_windows(&None, 1).is_err() && capture_window("1").is_err());
}

#[test]
fn offered_windows_are_sorted_by_process() {
    let found = |handle: i64, title: &str, process: &str, pid: u32| FoundWindow {
        handle,
        title: title.to_string(),
        visible: handle != 4,
        is_tool: handle == 5,
        process: process.to_string(),
        pid,
    };
    let all = vec![
        found(1, " b ", "zed.exe", 7),
        found(2, "c", "alpha.exe", 8),
        found(3, "own", "me.exe", 9),
        found(4, "hidden", "a.exe", 8),
        found(5, "tool", "a.exe", 8),
        found(6, "  ", "a.exe", 8),
        found(7, "d", "zed.exe", 7),
    ];
    let listed = |v: Vec<WindowInfo>| -> Vec<(String, String)> {
        v.into_iter().map(|w| (w.id, w.title)).collect()
    };
    let row = |id: &str, title: &str| (id.to_string(), title.to_string());
    let want = vec![row("2", "c"), row("1", "b"), row("7", "d")];
    assert_eq!(listed(offered_windows(&all, 9)), want);
    assert_eq!(listed(list_windows(&Some(all), 9).unwrap_or_default()), want);
}

#[test]
fn swapping_twice_restores() {
    let p = vec![1, 2, 3, 4, 5, 6, 7];
    let q = swap_red_and_blue(p.clone());
    assert_eq!(q, vec![3, 2, 1, 4, 5, 6, 7]);
    assert_eq!(swap_red_and_blue(q), p);
    assert!(all_zero(&vec![0, 0]) && !all_zero(&vec![0, 1]));
}

#[test]
fn captures_become_images() {
    let png = finish_capture(vec![10, 20, 30, 255], 1, 1).unwrap_or_else(|e| panic!("{e}"));
    assert!(png.starts_with("iVBORw0KGgo"));
    assert_ne!(Ok(png), encode_png(vec![10, 20, 30, 255], 1, 1));
    assert_eq!(
        encode_png(vec![1], 1, 1),
        Err("captured image has invalid dimensions".to_string())
    );
    for (w, h) in [(0, 0), (0, 7), (7, 0)] {
        assert!(encode_png(vec![], w, h).err().unwrap_or_default().starts_with("PNG encode failed: "));
    }
    assert!(encode_png(vec![], 0x4000_0000, 0).is_err());
    let blank = "capture produced an empty image — the window may be minimized; restore it and try again";
    assert_eq!(finish_capture(vec![0; 4], 1, 1).err().as_deref(), Some(blank));
    assert_eq!(check_extent(0, 4).err().as_deref(), Some(blank));
    assert_eq!(check_extent(1, 1), Ok(()));
    assert_eq!(image_text_from(Err("e".to_string())), Err("PNG encode failed: e".to_string()));
    assert_eq!(image_text_from(Ok(vec![0xfb, 0xff])), Ok("+/8=".to_string()));
}

// Links, names and images.

#[test]
fn a_link_that_fails_has_no_title() {
    assert_eq!(fetch_link_title(&None), Ok(String::new()));
    assert_eq!(fetch_link_title(&Some(b"<title>Hi</title>".to_vec())), Ok("Hi".to_string()));
    let mut page = b"<title>Hi</title>".to_vec();
    page.resize(524288, b' ');
    assert_eq!(fetch_link_title(&Some(page.clone())), Ok("Hi".to_string()));
    page.push(b' ');
    assert_eq!(fetch_link_title(&Some(page)), Err("link page exceeded 512 KiB limit".to_string()));
}

#[test]
fn a_page_has_a_title() {
    assert_eq!(link_title(&b"<TITLE a>\n Hi </title><title>2</title>".to_vec()), Ok("Hi".to_string()));
    assert_eq!(link_title(&b"none".to_vec()), Ok(String::new()));
    assert_eq!(link_title(&vec![b'<', b't', b'i', b't', b'l', b'e', b'>', 0xff, b'<', b'/', b't', b'i', b't', b'l', b'e', b'>']), Ok("\u{fffd}".to_string()));
    assert_eq!(title_from_group(Err("bad".to_string())), Err("bad".to_string()));
    assert_eq!(title_from_group(Ok(None)), Ok(String::new()));
    assert_eq!(title_from_group(Ok(owned(" a "))), Ok("a".to_string()));
    assert_eq!(check_link_url("http://example.com"), Ok(()));
    assert_eq!(check_link_url("http://localhost/"), Err("link URL points at a local/private host".to_string()));
    assert_eq!(check_link_url("x"), Err("invalid link URL".to_string()));
    assert_eq!(check_link_url("data:x"), Err("unsupported link URL scheme: data".to_string()));
    assert_eq!(check_link_size(524_288), Ok(()));
    assert!(check_link_size(524_289).is_err());
}

#[test]
fn a_rename_stays_in_its_directory() {
    assert_eq!(check_rename("a.txt"), Ok(()));
    assert_eq!(check_rename("a\"/b"), Err("unsafe rename target: \"a\\\"/b\"".to_string()));
    for bad in ["", ".", "..", "a\\b", "c:d"] {
        assert!(check_rename(bad).is_err());
    }
}

#[test]
fn logs_are_shown_by_their_tail() {
    let log: String = (0..50).map(|i| format!("l{i}\r\n")).collect();
    let j = get_recent_logs(&Some(log));
    match j.get("lines") {
        Some(Json::Arr(v)) => {
            assert_eq!(v.len(), 40);
            assert!(matches!(&v[0], Json::Str(s) if s == "l10"));
        }
        _ => panic!("lines"),
    }
    assert_eq!(tail_lines("a\nb", 5), names(&["a", "b"]));
    assert!(matches!(get_recent_logs(&None).get("lines"), Some(Json::Arr(v)) if v.is_empty()));
}

#[test]
fn a_pasted_image_keeps_off_another_drive() {
    let name = |s: &str, windows: bool| composer_image_name(&owned(s), windows, 1, 1, "png");
    assert_eq!(name("C:evil.png", true), "evil_1_00000001.png");
    assert_eq!(name("C:D:evil.png", true), "evil_1_00000001.png");
    assert_eq!(name("C:", true), "composer_1_00000001.png");
    assert_eq!(name("C:evil.png", false), "C:evil_1_00000001.png");
}

#[test]
fn a_pasted_image_gets_a_fresh_name() {
    assert_eq!(composer_image_name(&None, false, 12, 0x0a0b_0c0d, "png"), "composer_12_0a0b0c0d.png");
    assert_eq!(composer_image_name(&owned("/x/shot.v1.jpg"), false, 1, 1, ".JPG"), "shot.v1_1_00000001.jpg");
    assert_eq!(composer_image_name(&owned("a\\.."), false, 1, 1, "p/ng"), "composer_1_00000001.png");
    let w = save_image_buffer("AQI=", "png", &owned("/d"), true, &None, false, 3).unwrap_or_else(|e| panic!("{e}"));
    assert_eq!(w.bytes, vec![1, 2]);
    assert!(w.file_name.starts_with("composer_3_") && w.file_name.ends_with(".png"));
    assert!(matches!(w.dir, ImageDir::Given(d) if d == "/d"));
    let bad = save_image_buffer("*", "png", &None, true, &None, false, 3).err().unwrap_or_default();
    assert!(bad.starts_with("saveImageBuffer: bad base64: ") && bad.len() > 29);
    assert_eq!(
        save_image_buffer("", "png", &None, true, &None, false, 3).err(),
        owned("saveImageBuffer: empty image")
    );
    assert_eq!(
        plan_image_write(Ok(vec![1]), &owned("d"), false, "f".to_string()).err(),
        owned("saveImageBuffer: dir must be absolute")
    );
    let w = plan_image_write(Ok(vec![1]), &owned(" "), false, "f".to_string());
    assert!(matches!(w, Ok(w) if matches!(w.dir, ImageDir::Default)));
    assert_eq!(
        plan_image_write(Err("e".to_string()), &None, true, "f".to_string()).err(),
        owned("saveImageBuffer: bad base64: e")
    );
}

#[test]
fn the_agent_home_follows_the_platform() {
    let at = |o: &Option<String>, w: bool, l: &Option<String>, u: &Option<String>, h: &Option<String>| {
        let d = hermes_home(o, w, l, u, h);
        format!("{}|{}", d.base, d.below.join("/"))
    };
    let none: Option<String> = None;
    assert_eq!(at(&owned("/o"), true, &none, &none, &none), "/o|");
    assert_eq!(at(&owned(""), true, &owned("L"), &none, &none), "L|hermes");
    assert_eq!(at(&none, true, &none, &owned("U"), &none), "U|AppData/Local/hermes");
    assert_eq!(at(&none, true, &none, &none, &none), "|hermes");
    assert_eq!(at(&none, false, &none, &none, &owned("/h")), "/h|.hermes");
    assert_eq!(at(&none, false, &none, &none, &none), "|.hermes");
}

#[test]
fn a_saved_directory_is_read_back() {
    let written = settings_set_default_project_dir(&owned(" /p "));
    assert_eq!(written, owned("/p"));
    let r = settings_get_default_project_dir(&written, "/c".to_string());
    assert_eq!((r.dir, r.default_label.as_str(), r.resolved_cwd.as_str()), (owned("/p"), "Custom", "/c"));
    assert_eq!(settings_set_default_project_dir(&owned(" ")), None);
    let r = settings_get_default_project_dir(&owned(" \n"), "/c".to_string());
    assert_eq!((r.dir, r.default_label.as_str()), (None, "Default"));
    let j = settings_pick_default_project_dir(&None);
    assert!(matches!(j.get("canceled"), Some(Json::Bool(true))));
    assert_eq!(settings_pick_default_project_dir(&owned("/p")).get_str("dir"), owned("/p"));
}

#[test]
fn the_options_choose_the_picker() {
    let pick = |d: Option<bool>, m: Option<bool>| {
        picker_for(&SelectPathsOptions {
            directories: d,
            multiple: m,
            default_path: None,
            title: None,
            filters: None,
        })
    };
    assert_eq!(pick(Some(true), Some(true)), Picker::Folders);
    assert_eq!(pick(Some(true), None), Picker::Folder);
    assert_eq!(pick(None, Some(true)), Picker::Files);
    assert_eq!(pick(Some(false), None), Picker::File);
}

// Screenshots.

#[test]
fn only_managed_directories_are_emptied() {
    assert_eq!(check_clear(&owned("/app/shots"), "/app/shots", false), Ok(()));
    assert_eq!(check_clear(&owned("/App/Shots/"), "/app/shots", false), Ok(()));
    assert!(check_clear(&owned("/app/shots"), "/app/shots2", false).is_err());
    assert_eq!(check_clear(&None, "/etc", true), Err("refusing to clean unmanaged path: /etc".to_string()));
    let v = vec![
        EntrySize { is_file: true, len: 3 },
        EntrySize { is_file: false, len: 9 },
        EntrySize { is_file: true, len: 4 },
    ];
    assert_eq!(tally(&v), (2, 7));
    let r = clean_result("/p".to_string(), &v);
    assert_eq!((r.removed_files, r.freed_bytes), (2, 7));
    let s = dir_stat("app", "/p".to_string(), &Some(v));
    assert_eq!((s.kind.as_str(), s.exists, s.files, s.bytes), ("app", true, 2, 7));
    let s = dir_stat("project", "/p".to_string(), &None);
    assert_eq!((s.exists, s.files), (false, 0));
    assert_eq!((project_row(&owned(" ")), project_row(&owned(" x"))), (None, owned(" x")));
}

#[test]
fn excluding_twice_changes_nothing() {
    let once = exclude_entry("# c", "/x/").unwrap_or_else(|| panic!("added"));
    assert_eq!(once, "# c\n/x/\n");
    assert_eq!(exclude_entry(&once, "/x/"), None);
    assert_eq!(exclude_entry("a\n", "b"), owned("a\nb\n"));
    assert_eq!(exclude_entry("", "b"), owned("b\n"));
    assert_eq!(exclude_entry("a\r\n  b \r\n", "b"), None);
    assert_eq!((exclude_outcome(true), exclude_outcome(false)), ("added".to_string(), "already-present".to_string()));
    assert_eq!(gitdir_line("gitdir: /w/.git \n"), owned("/w/.git"));
    assert_eq!(gitdir_line("x gitdir: y"), None);
    assert_eq!(overlay_url("http://b/"), "http://b/?win=screenshot-overlay");
}
