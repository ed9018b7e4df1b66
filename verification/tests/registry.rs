use hermes_desktop::commands::BackendState;
use hermes_desktop::connection_config::{ConnectionConfigFile, RemoteBlock};
use hermes_desktop::connections::{
    connections_remove, connections_set_last_used, connections_set_launch_mode,
    connections_set_primary, dial_fields_changed, normalize_remote_base_url_strict,
    save_reason, save_registry_connection, url_key,
};
use hermes_desktop::connections_dial::{
    api_target, change_event, check_request_url, connections_test, connections_update_all,
    connections_update_managed, entry_token, get_connection_for, get_gateway_ws_url_for,
    plan_update, registry_answer, remote_auth_headers, remote_reply, sanitize_entry,
    sanitize_registry, save_answer, status_url, test_outcome, InstallIds, TestStep,
};
use hermes_desktop::json::Json;
use hermes_desktop::registry::{
    connection_id_for_label, forbidden_header_name, host_label_from_base_url, label_key,
    label_slug, normalize_ssh_fields, unique_label, usable_header_value, valid_header_name,
    ConnectionRegistry, RegistryConnection,
};
use hermes_desktop::registry_load::normalize_registry;
use hermes_desktop::registry_migrate::{
    cache_is_current, corrupt_sidecar, migrate_v1_to_registry, reconcile_registry_drift, resolve_registry,
    StoredFile,
};

fn print_json(j: &Json) -> String {
    match j {
        Json::Null => "null".to_string(),
        Json::Bool(b) => b.to_string(),
        Json::Int(n) => n.to_string(),
        Json::Decimal(s) => s.clone(),
        Json::Str(s) => format!("{s:?}"),
        Json::Arr(v) => {
            format!("[{}]", v.iter().map(print_json).collect::<Vec<_>>().join(","))
        }
        Json::Obj(o) => format!(
            "{{{}}}",
            o.iter().map(|(k, v)| format!("{k:?}:{}", print_json(v))).collect::<Vec<_>>().join(",")
        ),
    }
}

fn from_value(v: &serde_json::Value) -> Json {
    match v {
        serde_json::Value::Null => Json::Null,
        serde_json::Value::Bool(b) => Json::Bool(*b),
        serde_json::Value::Number(n) => match n.as_i64() {
            Some(i) => Json::Int(i),
            None => Json::Decimal(n.to_string()),
        },
        serde_json::Value::String(s) => Json::Str(s.clone()),
        serde_json::Value::Array(a) => Json::Arr(a.iter().map(from_value).collect()),
        serde_json::Value::Object(o) => {
            Json::Obj(o.iter().map(|(k, v)| (k.clone(), from_value(v))).collect())
        }
    }
}

fn parse_text(s: &str) -> Json {
    let v: serde_json::Value = serde_json::from_str(s).unwrap_or_else(|e| panic!("{e}: {s}"));
    from_value(&v)
}

fn text(s: &str) -> Option<String> {
    Some(s.to_string())
}

fn strings(v: &[&str]) -> Vec<String> {
    v.iter().map(|s| s.to_string()).collect()
}

fn load(s: &str) -> ConnectionRegistry {
    normalize_registry(&parse_text(s))
}

fn shown(r: &ConnectionRegistry) -> String {
    print_json(&r.to_json())
}

const TWO: &str = r#"{"version":2,"primary":"lab","lastUsed":"lab","launchMode":"last-used",
 "connections":[{"id":"local","kind":"local","label":"This device"},
 {"id":"lab","kind":"remote","label":"Lab","url":"http://lab:9119","authMode":"token",
  "token":"secret-token","headers":{"X-A":"1"}}]}"#;

#[test]
fn labels_are_compared_without_case() {
    assert_eq!(label_key("  HomeLab "), "homelab");
    assert_eq!(unique_label(" Lab ", &strings(&[])), "Lab");
    assert_eq!(unique_label("lab", &strings(&["LAB"])), "lab 2");
    assert_eq!(unique_label("lab", &strings(&["LAB", "lab 2", "Lab 3"])), "lab 4");
    assert_eq!(unique_label("  ", &strings(&[])), " 2");
    assert_eq!(unique_label(&"x".repeat(70), &strings(&[])), "x".repeat(60));
    assert_eq!(unique_label("ΟΔΟΣ", &strings(&["οδος"])), "ΟΔΟΣ 2");
}

#[test]
fn ids_are_slugs_and_never_local() {
    assert_eq!(label_slug(" My  Lab #2! "), "my-lab-2");
    assert_eq!(label_slug("日本"), "connection");
    assert_eq!(label_slug(&"a".repeat(60)), "a".repeat(48));
    assert_eq!(connection_id_for_label("Lab", &strings(&[])), "lab");
    assert_eq!(connection_id_for_label("Lab", &strings(&["lab", "lab-2"])), "lab-3");
    assert_eq!(connection_id_for_label("Local", &strings(&[])), "local-2");
}

#[test]
fn a_host_label_keeps_unusual_ports() {
    assert_eq!(host_label_from_base_url("http://lab:9119/x"), text("lab:9119"));
    assert_eq!(host_label_from_base_url("https://lab:80/"), text("lab"));
    assert_eq!(host_label_from_base_url("https://LAB/"), text("lab"));
    assert_eq!(host_label_from_base_url("no url"), None);
}

#[test]
fn header_names_are_tokens_and_not_reserved() {
    assert!(valid_header_name("X-A_b.c~") && !valid_header_name("") && !valid_header_name("a b"));
    assert!(!valid_header_name("é") && !valid_header_name("a:b"));
    assert!(forbidden_header_name(" Cookie ") && forbidden_header_name("TE"));
    assert!(!forbidden_header_name("X-Cookie"));
    assert_eq!(usable_header_value(&parse_text("\" v \"")), text("v"));
    assert_eq!(usable_header_value(&parse_text("{\"value\":\" v\"}")), text("v"));
    assert_eq!(usable_header_value(&parse_text("{\"encoding\":\"x\",\"value\":\"v\"}")), None);
    assert_eq!(usable_header_value(&parse_text("3")), None);
    assert_eq!(usable_header_value(&parse_text("\"  \"")), None);
}

fn ssh(host: &str, user: Option<&str>, port: Option<i64>) -> Option<String> {
    let none: Option<String> = None;
    normalize_ssh_fields(&text(host), &user.map(|s| s.to_string()), port, &none, &none, &none)
        .map(|f| format!("{}|{}|{:?}", f.user.unwrap_or_default(), f.host, f.port))
}

#[test]
fn an_ssh_host_is_taken_apart() {
    assert_eq!(ssh("ssh root@box:2222", None, None), text("root|box|Some(2222)"));
    assert_eq!(ssh("root@box:2222", Some("me"), Some(23)), text("me|box|Some(23)"));
    assert_eq!(ssh("box:22", None, None), text("|box|None"));
    assert_eq!(ssh("box:2222", None, Some(22)), text("|box|None"));
    assert_eq!(ssh("box:2222", None, Some(0)), text("|box|Some(2222)"));
    assert_eq!(ssh("[::1]", None, None), text("|::1|None"));
    assert_eq!(ssh("[::1]:2222", None, None), text("|::1|Some(2222)"));
    assert_eq!(ssh("me@[fe80::1]:22", None, None), text("me|fe80::1|None"));
    assert_eq!(ssh("[::1]:x", None, None), text("|[::1]:x|None"));
    assert_eq!(ssh("fe80::1", None, None), text("|fe80::1|None"));
    assert_eq!(ssh("box", None, Some(70_000)), text("|box|None"));
    assert_eq!(ssh("@box", None, None), text("|@box|None"));
    assert_eq!(ssh("  ", None, None), None);
    assert_eq!(ssh("u@", None, None), None);
    let none: Option<String> = None;
    let f = normalize_ssh_fields(
        &text("b"),
        &none,
        None,
        &text(" k "),
        &text("p"),
        &text("Work"),
    );
    let f = f.unwrap_or_else(|| panic!("fields"));
    assert_eq!((f.key_path, f.remote_hermes_path, f.remote_profile), (text("k"), text("p"), None));
}

#[test]
fn a_saved_registry_loads_unchanged() {
    let r = load(TWO);
    let again = normalize_registry(&r.to_json());
    assert_eq!(shown(&r), shown(&again));
    assert_eq!((r.primary.as_str(), r.launch_mode.as_str()), ("lab", "last-used"));
    assert_eq!(r.connections.len(), 2);
}

#[test]
fn edits_survive_a_restart() {
    let r = load(TWO);
    let reload = |r: &ConnectionRegistry| shown(&normalize_registry(&r.to_json()));
    let saved = save_registry_connection(
        &parse_text(
            r#"{"label":"New","kind":"cloud","url":"c.example","org":" o ","headers":{" X-Z ":"1","X-A":"2"}}"#,
        ),
        &r,
    );
    let next = saved.map(|o| o.next).unwrap_or_else(|e| panic!("{e}"));
    assert_eq!(next.connections.len(), 3);
    assert_eq!(reload(&next), shown(&next));
    let next = connections_remove(&next, "lab").unwrap_or_else(|e| panic!("{e}"));
    assert_eq!(reload(&next), shown(&next));
    let next = connections_set_primary(&next, " new ").unwrap_or_else(|e| panic!("{e}"));
    assert_eq!((reload(&next), next.primary.as_str()), (shown(&next), "new"));
}

#[test]
fn a_numbered_long_name_needs_its_base() {
    let long = "x".repeat(60);
    let r = load(&format!(
        r#"{{"connections":[{{"kind":"local","label":"D"}},
        {{"kind":"remote","id":"a","label":"{long}","url":"http://a"}},
        {{"kind":"remote","id":"b","label":"{long}","url":"http://b"}}]}}"#
    ));
    assert_eq!(r.connections[2].label, format!("{long} 2"));
    assert_eq!(shown(&normalize_registry(&r.to_json())), shown(&r));
    let next = connections_remove(&r, "a").unwrap_or_else(|e| panic!("{e}"));
    assert_eq!(normalize_registry(&next.to_json()).connections[1].label, long);
}

#[test]
fn loaded_ids_and_names_are_distinct() {
    let r = load(
        r#"{"connections":[{"kind":"remote","id":"local","label":"this DEVICE","url":"http://a"},
        {"kind":"remote","id":"x","label":"Lab","url":"http://b"},
        {"kind":"cloud","id":"x","label":"LAB","url":"http://c"}]}"#,
    );
    let ids: Vec<&str> = r.connections.iter().map(|c| c.id.as_str()).collect();
    let labels: Vec<&str> = r.connections.iter().map(|c| c.label.as_str()).collect();
    assert_eq!(labels, vec!["This device", "this DEVICE 2", "Lab", "LAB 2"]);
    assert_eq!(ids, vec!["local", "this-device-2", "x", "lab-2"]);
    assert_eq!(shown(&normalize_registry(&r.to_json())), shown(&r));
}

#[test]
fn a_second_load_changes_nothing() {
    for s in [
        "3",
        "{}",
        TWO,
        r#"{"primary":" x ","quarantined":[{"a":1}],"connections":[7,{"kind":"ssh","label":" s ","host":"me@box:2222"},
        {"kind":"remote","id":" x ","url":" http://a ","headers":{" B ":" 1","A":"2"}}]}"#,
    ] {
        let r = load(s);
        assert_eq!(shown(&normalize_registry(&r.to_json())), shown(&r), "{s}");
    }
    let long = "y".repeat(56);
    let row = format!(r#"{{"kind":"remote","label":"{long}","url":"http://a"}}"#);
    let rows: Vec<String> = (0..120).map(|_| row.clone()).collect();
    let r = load(&format!("{{\"connections\":[{}]}}", rows.join(",")));
    assert_eq!(r.connections.last().map(|c| c.label.clone()), Some(format!("{long} 120")));
    assert_eq!(shown(&normalize_registry(&r.to_json())), shown(&r));
    let near = format!("{} 2", "x".repeat(59));
    let once = unique_label(&"x".repeat(59), &strings(&[&"x".repeat(59)]));
    assert_eq!(once, near);
    assert_ne!(unique_label(&once, &strings(&[])), near);
}

#[test]
fn anything_loads_as_a_working_registry() {
    for s in ["null", "[]", "3", "{}", "{\"connections\":[null,true]}"] {
        let r = load(s);
        assert_eq!(r.connections.len(), 1, "{s}");
        assert_eq!(r.connections[0].id, "local");
        assert_eq!((r.primary.as_str(), r.last_used.as_str()), ("local", "local"));
        assert!(r.quarantined.is_none());
    }
    assert_eq!(shown(&load("null")), shown(&ConnectionRegistry::initial()));
}

#[test]
fn malformed_entries_are_set_aside() {
    let r = load(
        r#"{"primary":"gone","connections":[7,{"kind":"ftp","label":"F"},
        {"kind":"remote","label":"R"},{"kind":"ssh","label":"S"}],
        "quarantined":[{"entry":1},{"reason":"old","entry":{"label":"O"}},{"reason":"x"}]}"#,
    );
    let q = r.quarantined.unwrap_or_default();
    let reasons: Vec<&str> = q.iter().map(|e| e.reason.as_str()).collect();
    assert_eq!(
        reasons,
        vec![
            "unknown",
            "old",
            "entry-malformed",
            "entry-unrecognized-kind",
            "entry-missing-url",
            "entry-missing-ssh-host"
        ]
    );
    assert_eq!(r.primary, "local");
    let many: Vec<String> = (0..30).map(|i| i.to_string()).collect();
    let full = load(&format!("{{\"connections\":[{}]}}", many.join(",")));
    assert_eq!(full.quarantined.unwrap_or_default().len(), 20);
}

#[test]
fn repeated_names_and_ids_are_told_apart() {
    let r = load(
        r#"{"connections":[{"kind":"remote","id":"a","label":"Lab","url":"http://x"},
        {"kind":"cloud","id":"a","label":"lab","url":"http://y","org":" o "},
        {"kind":"local","label":"Mine"},{"kind":"local","label":"Other"},
        {"kind":"remote","url":"http://host:8080"}]}"#,
    );
    let seen: Vec<String> =
        r.connections.iter().map(|c| format!("{}={}", c.id, c.label)).collect();
    assert_eq!(seen, vec!["a=Lab", "lab-2=lab 2", "local=Mine", "host-8080=host:8080"]);
    assert_eq!(r.connections[1].org, text("o"));
}

#[test]
fn forbidden_headers_are_not_loaded() {
    let r = load(
        r#"{"connections":[{"kind":"remote","id":"a","label":"L","url":"http://x",
        "headers":{" X-B ":"2","Cookie":"c","a b":"d"},"token":{"encoding":"safe"}}]}"#,
    );
    let c = &r.connections[1];
    let names: Vec<&str> =
        c.headers.as_ref().map(|h| h.iter().map(|p| p.0.as_str()).collect()).unwrap_or_default();
    assert_eq!(names, vec!["X-B"]);
    assert_eq!(entry_token(c), "");
    assert_eq!(print_json(&c.token.as_ref().map(|t| t.dup()).unwrap_or(Json::Null)), "{\"encoding\":\"safe\"}");
}

fn block(mode: &str, url: &str, token: Option<&str>, org: &str) -> RemoteBlock {
    RemoteBlock {
        mode: mode.to_string(),
        url: url.to_string(),
        auth_mode: "token".to_string(),
        token: token.map(|s| s.to_string()),
        org: org.to_string(),
    }
}

fn config(mode: &str, remote: RemoteBlock) -> ConnectionConfigFile {
    ConnectionConfigFile { mode: mode.to_string(), remote, profiles: Vec::new() }
}

#[test]
fn the_old_choice_becomes_the_primary() {
    let mut c = config("remote", block("remote", " http://lab:9 ", Some(" t "), ""));
    c.profiles.push(("p".to_string(), block("cloud", "https://c.example", None, " org ")));
    c.profiles.push(("q".to_string(), block("remote", "http://lab:9", None, "")));
    c.profiles.push(("s".to_string(), block("ssh", "http://never", None, "")));
    let r = migrate_v1_to_registry(&c);
    assert_eq!(r.connections.len(), 3);
    assert_eq!((r.primary.as_str(), r.last_used.as_str()), ("lab-9", "lab-9"));
    assert_eq!(entry_token(&r.connections[1]), "t");
    assert_eq!(r.connections[2].org, text("org"));
    assert_eq!(r.connections[2].label, "c.example");
    let local = migrate_v1_to_registry(&config("local", block("", "http://x", None, "")));
    assert_eq!(shown(&local), shown(&ConnectionRegistry::initial()));
}

#[test]
fn healing_happens_once() {
    let c = config("cloud", block("cloud", "C.example/", None, "o"));
    let r = load(TWO);
    let healed = reconcile_registry_drift(&c, &r).unwrap_or_else(|| panic!("healed"));
    assert_eq!(healed.connections[2].url, text("http://c.example"));
    assert_eq!((healed.primary.as_str(), healed.connections.len()), ("c-example", 3));
    assert!(reconcile_registry_drift(&c, &healed).is_none());
    assert!(reconcile_registry_drift(&config("local", block("", "x", None, "")), &r).is_none());
    assert!(reconcile_registry_drift(&config("remote", block("", " ", None, "")), &r).is_none());
    let known = config("remote", block("remote", "http://lab:9119/", None, ""));
    assert!(reconcile_registry_drift(&known, &r).is_none());
}

#[test]
fn a_stored_file_is_resolved() {
    let c = config("remote", block("remote", "http://new", None, ""));
    let missing = resolve_registry(StoredFile::Missing, &c);
    assert!(missing.write && !missing.preserve);
    let corrupt = resolve_registry(StoredFile::Corrupt, &c);
    assert!(corrupt.write && corrupt.preserve);
    let calm = config("local", block("", "", None, ""));
    let parsed = resolve_registry(StoredFile::Parsed(parse_text(TWO)), &calm);
    assert!(!parsed.write && !parsed.preserve);
    assert_eq!(parsed.registry.connections.len(), 2);
    assert_eq!(corrupt_sidecar("{oops", 12), text("json.corrupt-12"));
    assert_eq!(corrupt_sidecar(" \n", 12), None);
    assert!(cache_is_current(&Some(Some(3)), &Some(3)));
    assert!(cache_is_current(&Some(None), &None));
    assert!(!cache_is_current(&None, &None) && !cache_is_current(&Some(None), &Some(3)));
}

fn save(payload: &str, r: &ConnectionRegistry) -> Result<RegistryConnection, String> {
    save_registry_connection(&parse_text(payload), r).map(|o| o.entry)
}

#[test]
fn a_save_is_checked() {
    let r = load(TWO);
    let fails = |p: &str| save(p, &r).err().unwrap_or_default();
    assert!(fails(r#"{"label":" "}"#).starts_with("Every connection needs a name."));
    assert_eq!(
        fails(&format!("{{\"label\":\"{}\"}}", "x".repeat(65))),
        "Connection name is too long (max 64 characters)."
    );
    assert_eq!(
        fails(r#"{"label":"LAB","kind":"remote"}"#),
        "A connection named \"Lab\" already exists. Connection names must be unique."
    );
    assert_eq!(
        fails(r#"{"label":"N","kind":"remote","id":"local"}"#),
        "The id \"local\" is reserved for the local connection."
    );
    assert_eq!(fails(r#"{"label":"N","kind":"ssh"}"#), "SSH connections need a host.");
    assert_eq!(
        fails(r#"{"label":"N","kind":"remote"}"#),
        "Remote connections need a gateway URL."
    );
    assert_eq!(
        fails(r#"{"label":"N","kind":"remote","url":"http://["}"#),
        "\"http://[\" is not a valid gateway URL."
    );
    assert_eq!(
        fails(r#"{"label":"N","kind":"remote","url":"http://LAB:9119/","token":"t"}"#),
        "A connection to this gateway URL already exists (\"Lab\")."
    );
    assert_eq!(
        fails(r#"{"label":"N","kind":"remote","url":"http://n"}"#),
        "Remote gateway session token is required."
    );
    assert_eq!(fails(r#"{"label":"N","kind":"ftp"}"#), "Unknown connection kind: ftp");
    assert_eq!(fails("[]"), "save payload must be an object");
}

#[test]
fn a_save_touches_one_entry() {
    let r = load(TWO);
    let o = save_registry_connection(
        &parse_text(r#"{"id":"lab","label":"Lab two","kind":"remote","headers":{"X-A":null,"X-C":"3","Host":"h"}}"#),
        &r,
    );
    let o = o.unwrap_or_else(|e| panic!("{e}"));
    assert_eq!(o.entry.label, "Lab two");
    assert_eq!(entry_token(&o.entry), "secret-token");
    assert_eq!(o.entry.url, text("http://lab:9119"));
    let names: Vec<String> =
        o.entry.headers.as_ref().map(|h| h.iter().map(|p| p.0.clone()).collect()).unwrap_or_default();
    assert_eq!(names, vec!["X-A", "X-C"]);
    assert!(o.dial_changed);
    assert_eq!(o.next.connections.len(), 2);
    assert_eq!(o.next.connections[0].label, "This device");
    let renamed = save_registry_connection(
        &parse_text(r#"{"id":"lab","label":"Other","kind":"remote"}"#),
        &r,
    );
    let renamed = renamed.unwrap_or_else(|e| panic!("{e}"));
    assert!(!renamed.dial_changed);
    assert_eq!((save_reason(true), save_reason(false)), ("updated".to_string(), "saved".to_string()));
    assert!(!dial_fields_changed(&renamed.entry, &r.connections[1]));
}

#[test]
fn switching_to_oauth_drops_the_token() {
    let r = load(TWO);
    let e = save(r#"{"id":"lab","label":"Lab","kind":"remote","authMode":"oauth"}"#, &r);
    let e = e.unwrap_or_else(|e| panic!("{e}"));
    assert_eq!(e.auth_mode, text("oauth"));
    assert!(e.token.is_none());
}

#[test]
fn an_ssh_edit_keeps_what_it_does_not_carry() {
    let r = load(
        r#"{"connections":[{"kind":"ssh","id":"s","label":"S","host":"box","user":"root",
        "port":2222,"keyPath":"k"}]}"#,
    );
    let kept = save(r#"{"id":"s","label":"T","kind":"ssh"}"#, &r).unwrap_or_else(|e| panic!("{e}"));
    assert_eq!((kept.user, kept.port, kept.key_path), (text("root"), Some(2222), text("k")));
    let moved = save(r#"{"id":"s","label":"T","kind":"ssh","host":"me@new"}"#, &r)
        .unwrap_or_else(|e| panic!("{e}"));
    assert_eq!((moved.user, moved.host, moved.port), (text("me"), text("new"), None));
    assert_eq!(
        save(r#"{"label":"N","kind":"ssh","host":"ROOT@box:2222"}"#, &r).err(),
        text("A connection to this SSH host already exists (\"S\").")
    );
    let local = save(r#"{"label":"Desk","kind":"local"}"#, &r).unwrap_or_else(|e| panic!("{e}"));
    assert_eq!((local.id.as_str(), local.label.as_str()), ("local", "Desk"));
}

#[test]
fn strict_addresses() {
    assert_eq!(normalize_remote_base_url_strict("Lab:9119/x/"), Ok("http://lab:9119/x".to_string()));
    assert_eq!(url_key(" HTTP://Lab// "), "http://lab");
}

#[test]
fn a_removed_primary_falls_back_to_local() {
    let r = load(TWO);
    let next = connections_remove(&r, " lab ").unwrap_or_else(|e| panic!("{e}"));
    assert_eq!(next.connections.len(), 1);
    assert_eq!((next.primary.as_str(), next.last_used.as_str()), ("local", "local"));
    assert_eq!(
        connections_remove(&r, "local").err(),
        text("The local connection cannot be removed.")
    );
    assert_eq!(connections_remove(&r, "x").err(), text("No connection with id \"x\"."));
}

#[test]
fn designations_name_registered_connections() {
    let r = load(TWO);
    assert_eq!(connections_set_primary(&r, " local ").map(|n| n.primary), Ok("local".to_string()));
    assert_eq!(
        connections_set_primary(&r, "x").map(|n| n.primary),
        Err("No connection with id \"x\".".to_string())
    );
    assert_eq!(connections_set_last_used(&r, "local").map(|n| n.last_used), Ok("local".to_string()));
    assert_eq!(
        connections_set_last_used(&r, "").map(|n| n.last_used),
        Err("No connection with id \"\".".to_string())
    );
    assert_eq!(
        connections_set_launch_mode(&r, "primary").map(|n| n.launch_mode),
        Ok("primary".to_string())
    );
    assert_eq!(
        connections_set_launch_mode(&r, "x").map(|n| n.launch_mode),
        Err("Unknown connection launch mode \"x\".".to_string())
    );
}

#[test]
fn views_hide_secrets() {
    let r = load(TWO);
    let mut other = load(TWO);
    other.connections[1].token = Some(Json::Str("secret-tXXXX".to_string()));
    other.connections[1].headers = Some(vec![("X-A".to_string(), Json::Str("zzz".to_string()))]);
    let ids = vec![None, text("dev-1")];
    let view = print_json(&sanitize_registry(&r, &ids));
    assert_eq!(view, print_json(&sanitize_registry(&other, &ids)));
    assert!(!view.contains("secret-token") && view.contains("secret-t…"));
    assert!(view.contains("\"installId\":\"dev-1\"") && view.contains("\"headerNames\":[\"X-A\"]"));
    assert!(view.contains("\"secureTokenStorage\":false"));
    let e = sanitize_entry(&r.connections[0], &None);
    assert_eq!(
        print_json(&e),
        "{\"headerNames\":[],\"id\":\"local\",\"kind\":\"local\",\"label\":\"This device\",\"tokenPreview\":null,\"tokenSet\":false}"
    );
    let q = load("{\"connections\":[{\"label\":\"Q\"}]}");
    assert!(print_json(&sanitize_registry(&q, &vec![]))
        .contains("\"quarantined\":[{\"label\":\"Q\",\"reason\":\"entry-unrecognized-kind\"}]"));
}

#[test]
fn identities_are_trusted_for_a_while() {
    let mut ids = InstallIds::new();
    assert_eq!(ids.cached("a", 0), None);
    assert_eq!(ids.remember("a", &parse_text(r#"{"install_id":" i "}"#), 1000), text("i"));
    assert_eq!(ids.cached("a", 300_999), text("i"));
    assert_eq!(ids.cached("a", 301_000), None);
    assert_eq!(ids.cached("b", 1000), None);
    assert_eq!(ids.remember("a", &parse_text("{}"), 2000), None);
    assert_eq!(ids.known.len(), 1);
    assert_eq!(ids.cached("a", 2001), None);
}

#[test]
fn requests_go_where_the_connection_is() {
    let r = load(TWO);
    let t = api_target(&r, "lab").unwrap_or_else(|e| panic!("{e}"));
    let t = t.unwrap_or_else(|| panic!("a target"));
    assert_eq!((t.base.as_str(), t.token.as_str()), ("http://lab:9119", "secret-token"));
    let h = remote_auth_headers(&t.token, &t.headers);
    assert_eq!(
        h,
        vec![
            ("X-Hermes-Session-Token".to_string(), "secret-token".to_string()),
            ("X-A".to_string(), "1".to_string())
        ]
    );
    assert!(matches!(api_target(&r, "local"), Ok(None)));
    assert!(matches!(api_target(&r, ""), Ok(None)));
    assert_eq!(api_target(&r, "x").err(), text("No connection with id \"x\"."));
    let mixed = load(
        r#"{"connections":[{"kind":"ssh","id":"s","label":"S","host":"b"},
        {"kind":"remote","id":"o","label":"O","url":"http://o","authMode":"oauth"},
        {"kind":"remote","id":"n","label":"N","url":"http://n"},
        {"kind":"cloud","id":"e","label":"E","url":"//","token":"t"}]}"#,
    );
    assert!(api_target(&mixed, "s").err().unwrap_or_default().starts_with("SSH sources"));
    assert_eq!(
        api_target(&mixed, "o").err(),
        text("OAuth remote gateways are not supported in this build yet.")
    );
    assert_eq!(
        api_target(&mixed, "n").err(),
        text("Connection \"N\" has no saved session token. Edit the connection and paste one.")
    );
    assert_eq!(api_target(&mixed, "e").err(), text("Connection \"E\" has no URL."));
}

#[test]
fn gateway_requests_are_guarded() {
    assert_eq!(check_request_url("http://10.0.0.1/x"), Ok(()));
    assert_eq!(check_request_url("nope"), Err("invalid gateway URL: nope".to_string()));
    assert_eq!(
        check_request_url("ftp://h/"),
        Err("unsupported gateway URL scheme: ftp".to_string())
    );
    assert_eq!(
        remote_reply(200, &vec![0; 524_289], None).err(),
        text("gateway response exceeded 512 KiB limit")
    );
    assert_eq!(remote_reply(404, &b"no".to_vec(), None).err(), text("gateway 404: no"));
    assert_eq!(
        remote_reply(200, &vec![0xff, b'x'], None).err(),
        text("gateway returned invalid JSON: \u{fffd}x")
    );
    assert_eq!(
        remote_reply(204, &vec![], Some(Json::Int(3))).map(|j| print_json(&j)),
        Ok("3".to_string())
    );
}

#[test]
fn a_descriptor_is_dialled_at_its_source() {
    let r = load(TWO);
    let mut b = BackendState::new(text("tok"));
    b.mark_ready("http://127.0.0.1:7/".to_string(), "tok".to_string());
    let at = |p: &str| get_connection_for(&parse_text(p), &b, &r);
    let local = at(r#"{"profile":" p "}"#).unwrap_or(Json::Null);
    assert_eq!(local.get_str("connectionId"), text("local"));
    assert_eq!(local.get_str("wsUrl"), text("ws://127.0.0.1:7/api/ws?token=tok"));
    assert_eq!(local.get_str("profile"), text("p"));
    let lab = at(r#"{"connectionId":" lab "}"#).unwrap_or(Json::Null);
    assert_eq!(lab.get_str("wsUrl"), text("ws://lab:9119/api/ws?token=secret-token"));
    assert_eq!(lab.get_str("remoteHost"), text("lab:9119"));
    assert_eq!(lab.get_str("remoteKind"), text("url"));
    assert!(matches!(lab.get("registryScoped"), Some(Json::Bool(true))));
    assert_eq!(at(r#"{"connectionId":"x"}"#).err(), text("No connection with id \"x\"."));
    let ws = get_gateway_ws_url_for(&parse_text(r#"{"connectionId":"lab"}"#), &b, &r);
    assert_eq!(
        ws.map(|j| print_json(&j)),
        Ok("{\"baseUrl\":\"http://lab:9119\",\"ok\":true,\"wsUrl\":\"ws://lab:9119/api/ws?token=secret-token\"}".to_string())
    );
    let own = get_gateway_ws_url_for(&Json::Null, &b, &r).unwrap_or(Json::Null);
    assert_eq!(own.get_str("baseUrl"), text("http://127.0.0.1:7"));
}

#[test]
fn sources_that_cannot_be_dialled_are_refused() {
    let b = BackendState::new(None);
    let r = load(
        r#"{"connections":[{"kind":"ssh","id":"s","label":"S","host":"b"},
        {"kind":"cloud","id":"o","label":"O","url":"https://o/","authMode":"oauth"},
        {"kind":"remote","id":"n","label":"N","url":"http://n"}]}"#,
    );
    let at = |id: &str| {
        get_connection_for(&parse_text(&format!("{{\"connectionId\":\"{id}\"}}")), &b, &r)
    };
    let ws = |id: &str| {
        get_gateway_ws_url_for(&parse_text(&format!("{{\"connectionId\":\"{id}\"}}")), &b, &r)
    };
    assert!(at("s").err().unwrap_or_default().starts_with("SSH sources are not available"));
    assert!(ws("s").is_err());
    let oauth = at("o").unwrap_or(Json::Null);
    assert_eq!((oauth.get_str("token"), oauth.get_str("remoteKind")), (text(""), text("cloud")));
    assert_eq!(oauth.get_str("wsUrl"), text("wss://o/api/ws"));
    assert!(matches!(ws("o").unwrap_or(Json::Null).get("ok"), Some(Json::Bool(false))));
    assert!(at("n").err().unwrap_or_default().contains("no saved session token"));
    assert_eq!(
        ws("n").unwrap_or(Json::Null).get_str("error"),
        text("Connection \"N\" has no usable URL + session token.")
    );
}

#[test]
fn a_test_asks_or_answers() {
    let r = load(TWO);
    assert!(matches!(connections_test(&r, "local"), Ok(TestStep::AskLocal)));
    match connections_test(&r, " lab ") {
        Ok(TestStep::AskRemote(t)) => assert_eq!(status_url(&t.base), "http://lab:9119/api/status"),
        _ => panic!("a question"),
    }
    assert_eq!(connections_test(&r, "x").err(), text("No connection with id \"x\"."));
    let mixed = load(
        r#"{"connections":[{"kind":"ssh","id":"s","label":"S","host":"b"},
        {"kind":"remote","id":"o","label":"O","url":"http://o","authMode":"oauth"},
        {"kind":"remote","id":"n","label":"N","url":"http://n"}]}"#,
    );
    for id in ["s", "o", "n"] {
        match connections_test(&mixed, id) {
            Ok(TestStep::Answer(j)) => assert!(matches!(j.get("reachable"), Some(Json::Bool(false)))),
            _ => panic!("an answer"),
        }
    }
    let ok = test_outcome("http://lab", &Ok(parse_text(r#"{"version":"1.2"}"#)));
    assert_eq!(
        print_json(&ok),
        "{\"baseUrl\":\"http://lab\",\"ok\":true,\"reachable\":true,\"version\":\"1.2\"}"
    );
    let bad = test_outcome("http://lab", &Err("down".to_string()));
    assert_eq!(bad.get_str("error"), text("down"));
}

#[test]
fn a_managed_update_is_refused() {
    let r = load(TWO);
    let j = connections_update_managed(&r, "lab").unwrap_or(Json::Null);
    assert_eq!(j.get_str("outcome"), text("refused"));
    let id = j.get_str("correlationId").unwrap_or_default();
    assert_eq!(id.len(), 32);
    assert!(id.chars().all(|c| c.is_ascii_hexdigit() && !c.is_ascii_uppercase()));
    let again = connections_update_managed(&r, "lab").unwrap_or(Json::Null);
    assert_ne!(again.get_str("correlationId"), text(&id));
    assert!(connections_update_managed(&r, "x").is_err());
}

#[test]
fn an_update_of_all_has_one_row_each() {
    let r = load(
        r#"{"connections":[{"kind":"local","label":"D"},
        {"kind":"cloud","id":"c","label":"C","url":"http://c","token":"t"},
        {"kind":"ssh","id":"s","label":"S","host":"b"},
        {"kind":"remote","id":"a","label":"A","url":"http://a/","token":"t"},
        {"kind":"remote","id":"b","label":"B","url":"http://b","token":"t"},
        {"kind":"remote","id":"e","label":"E","url":"http://e","token":"t"},
        {"kind":"remote","id":"n","label":"N","url":"http://n"},
        {"kind":"remote","id":"o","label":"O","url":"http://o","authMode":"oauth"},
        {"kind":"remote","id":"x","label":"X","url":"http://x","token":"t"}]}"#,
    );
    let plans: Vec<Option<String>> =
        r.connections.iter().map(|c| plan_update(c).map(|t| t.base)).collect();
    assert_eq!(plans[3], text("http://a/api/hermes/update"));
    assert!(plans[0].is_none() && plans[1].is_none() && plans[2].is_none());
    assert!(plans[6].is_none() && plans[7].is_none());
    let replies: Vec<Option<Result<Json, String>>> = vec![
        None,
        None,
        None,
        Some(Ok(parse_text("{}"))),
        Some(Ok(parse_text(r#"{"ok":false,"message":"m"}"#))),
        Some(Err("down".to_string())),
        None,
        None,
        Some(Ok(Json::Null)),
    ];
    let options = Some(parse_text(r#"{"excludeIds":["x",3]}"#));
    let j = connections_update_all(&r, &options, &replies);
    let rows = match j.get("results") {
        Some(Json::Arr(v)) => v.iter().map(print_json).collect::<Vec<_>>(),
        _ => panic!("rows"),
    };
    assert_eq!(rows.len(), 8);
    assert!(rows[0].contains("installer-managed") && rows[1].contains("cloud-managed"));
    assert!(rows[2].contains("SSH update lifecycle"));
    assert!(rows[3].contains("\"detail\":\"update started\"") && rows[3].contains("\"ok\":true"));
    assert!(rows[4].contains("\"reason\":\"backend-refused\"") && rows[4].contains("\"detail\":\"m\""));
    assert!(rows[5].contains("\"error\":\"down\""));
    assert!(rows[6].contains("no saved session token") && rows[7].contains("OAuth"));
}

#[test]
fn commands_answer_with_the_registry() {
    let shown = Json::Int(1);
    assert_eq!(print_json(&registry_answer(shown.dup())), "{\"ok\":true,\"registry\":1}");
    assert_eq!(
        print_json(&save_answer(Json::Int(2), shown)),
        "{\"connection\":2,\"ok\":true,\"registry\":1}"
    );
    assert_eq!(
        print_json(&change_event("lab", "saved")),
        "{\"connectionId\":\"lab\",\"reason\":\"saved\"}"
    );
}
