use hermes_desktop::connection_config::{
    apply_connection_config, check_probe_size, check_probe_url, coerce, get_connection_config,
    normalize_remote_base_url, probe_connection_config, probe_remote_auth_mode, sanitize,
    save_connection_config, test_connection_config, token_preview, ConnectionConfigFile,
    DesktopConnectionConfig, DesktopConnectionProbeResult, ProbeStep, RemoteBlock,
};
use hermes_desktop::json::Json;

fn payload(items: &[(&str, &str)]) -> Json {
    Json::Obj(items.iter().map(|(k, v)| (k.to_string(), Json::Str(v.to_string()))).collect())
}

fn empty_file() -> ConnectionConfigFile {
    ConnectionConfigFile {
        mode: "local".to_string(),
        remote: RemoteBlock::empty(),
        profiles: Vec::new(),
    }
}

fn all_of(c: &DesktopConnectionConfig) -> String {
    format!(
        "{} {} {:?} {} {} {:?} {} {} [{}]",
        c.env_override,
        c.mode,
        c.profile,
        c.remote_auth_mode,
        c.remote_oauth_connected,
        c.remote_token_preview,
        c.remote_token_set,
        c.remote_url,
        c.cloud_org
    )
}

#[test]
fn an_address_is_reduced_to_its_base() {
    assert_eq!(normalize_remote_base_url("  "), "");
    assert_eq!(normalize_remote_base_url(" Box:9119 "), "http://box:9119");
    assert_eq!(normalize_remote_base_url("https://box:443/a/b//?q#f"), "https://box/a/b");
    assert_eq!(normalize_remote_base_url("http://[::1]:9/"), "http://[::1]:9");
    assert_eq!(normalize_remote_base_url("http://0x7f.1/"), "http://127.0.0.1");
    assert_eq!(normalize_remote_base_url("http://["), "http://[");
}

#[test]
fn a_token_is_shown_by_its_beginning() {
    assert_eq!(token_preview(""), None);
    assert_eq!(token_preview("abc").as_deref(), Some("abc…"));
    assert_eq!(token_preview("äbcdefghij").as_deref(), Some("äbcdefgh…"));
}

#[test]
fn a_saved_choice_is_shown() {
    let p = payload(&[
        ("mode", "remote"),
        ("remoteUrl", "box:9119/"),
        ("remoteToken", " secret-token "),
    ]);
    let (file, shown) = save_connection_config(&p, &empty_file());
    assert_eq!(file.mode, "remote");
    assert_eq!(file.remote.token.as_deref(), Some("secret-token"));
    assert_eq!(
        all_of(&shown),
        "false remote None token false Some(\"secret-t…\") true http://box:9119 []"
    );
    assert_eq!(all_of(&get_connection_config(&file, None)), all_of(&shown));
    assert_eq!(shown.ssh_port, None);
}

#[test]
fn an_unknown_mode_is_local() {
    let c = coerce(&payload(&[("mode", "ftp"), ("remoteAuthMode", "odd")]), &empty_file());
    assert_eq!((c.mode.as_str(), c.remote.auth_mode.as_str()), ("local", "token"));
    let c = coerce(&Json::Null, &empty_file());
    assert_eq!((c.mode.as_str(), c.remote.mode.as_str()), ("local", "local"));
}

#[test]
fn a_blank_token_keeps_the_saved_one() {
    let first = coerce(&payload(&[("mode", "remote"), ("remoteToken", "t")]), &empty_file());
    let again = coerce(&payload(&[("mode", "remote"), ("remoteToken", "  ")]), &first);
    assert_eq!(again.remote.token.as_deref(), Some("t"));
    let local = coerce(&payload(&[("mode", "local")]), &first);
    assert_eq!(local.remote.token.as_deref(), Some("t"));
}

#[test]
fn leaving_the_cloud_forgets_it() {
    let cloud = coerce(
        &payload(&[
            ("mode", "cloud"),
            ("remoteUrl", "https://c.example"),
            ("remoteToken", "t"),
            ("cloudOrg", "org"),
        ]),
        &empty_file(),
    );
    assert_eq!(cloud.remote.org, "org");
    let kept = coerce(&payload(&[("mode", "cloud")]), &cloud);
    assert_eq!((kept.remote.org.as_str(), kept.remote.url.as_str()), ("org", "https://c.example"));
    let left = coerce(&payload(&[("mode", "remote")]), &cloud);
    assert_eq!(left.remote.token, None);
    assert_eq!((left.remote.org.as_str(), left.remote.url.as_str()), ("", ""));
}

#[test]
fn a_save_touches_one_scope() {
    let global = coerce(&payload(&[("mode", "remote"), ("remoteUrl", "a:1")]), &empty_file());
    let (file, shown) = apply_connection_config(
        &payload(&[("profile", "work"), ("mode", "cloud"), ("remoteUrl", "b:2"), ("cloudOrg", "o")]),
        &global,
    );
    assert_eq!((file.mode.as_str(), file.remote.url.as_str()), ("remote", "http://a:1"));
    assert_eq!(file.profiles.len(), 1);
    assert_eq!(shown.profile.as_deref(), Some("work"));
    assert_eq!((shown.mode.as_str(), shown.cloud_org.as_str()), ("cloud", "o"));
    let other = sanitize(&file, Some("play".to_string()));
    assert_eq!((other.mode.as_str(), other.remote_url.as_str()), ("remote", "http://a:1"));
    let blank = sanitize(&file, Some(String::new()));
    assert_eq!(blank.mode, "remote");
    let again = coerce(&payload(&[("profile", "work"), ("mode", "local")]), &file);
    assert_eq!(again.profiles.len(), 1);
    assert_eq!(again.profiles[0].1.url, "");
}

#[test]
fn the_shown_choice_hides_the_token() {
    let mut a = empty_file();
    a.remote.token = Some("secret-ttail-one".to_string());
    let mut b = empty_file();
    b.remote.token = Some("secret-ttail-two".to_string());
    assert_eq!(all_of(&sanitize(&a, None)), all_of(&sanitize(&b, None)));
    assert!(!all_of(&sanitize(&a, None)).contains("tail"));
}

fn fetched(s: ProbeStep) -> String {
    match s {
        ProbeStep::Fetch(u) => u,
        ProbeStep::Done(_) => panic!("a request"),
    }
}

fn found(s: ProbeStep) -> DesktopConnectionProbeResult {
    match s {
        ProbeStep::Done(r) => r,
        ProbeStep::Fetch(u) => panic!("{u}"),
    }
}

fn open_status() -> Json {
    Json::Obj(vec![("version".to_string(), Json::Str("1".to_string()))])
}

fn closed_status() -> Json {
    Json::Obj(vec![("auth_required".to_string(), Json::Bool(true))])
}

#[test]
fn a_probe_asks_for_the_status_first() {
    assert_eq!(fetched(probe_remote_auth_mode("Box", &vec![])), "http://box/api/status");
    let r = found(probe_remote_auth_mode("Box", &vec![Ok(open_status())]));
    assert_eq!((r.base_url.as_str(), r.auth_mode.as_str(), r.reachable), ("http://box", "token", true));
    assert_eq!((r.version.as_deref(), r.error, r.providers.len()), (Some("1"), None, 0));
    let r = found(probe_remote_auth_mode("Box", &vec![Err("down".to_string())]));
    assert_eq!((r.auth_mode.as_str(), r.reachable, r.error.as_deref()), ("unknown", false, Some("down")));
}

#[test]
fn a_probe_lists_the_named_providers() {
    let asked = vec![Ok(closed_status())];
    assert_eq!(fetched(probe_remote_auth_mode("b", &asked)), "http://b/api/auth/providers");
    let list = Json::Obj(vec![(
        "providers".to_string(),
        Json::Arr(vec![
            payload(&[("name", "gh"), ("display_name", "GitHub")]),
            payload(&[("name", "")]),
            Json::Obj(vec![
                ("name".to_string(), Json::Str("pw".to_string())),
                ("supports_password".to_string(), Json::Bool(true)),
            ]),
        ]),
    )]);
    let r = found(probe_remote_auth_mode("b", &vec![Ok(closed_status()), Ok(list)]));
    assert_eq!((r.auth_mode.as_str(), r.providers.len()), ("oauth", 2));
    assert_eq!(r.providers[0].get_str("displayName").as_deref(), Some("GitHub"));
    assert_eq!(r.providers[1].get_str("displayName").as_deref(), Some("pw"));
    assert!(matches!(r.providers[0].get("supportsPassword"), Some(Json::Bool(false))));
    assert!(matches!(r.providers[1].get("supportsPassword"), Some(Json::Bool(true))));
    let r = found(probe_remote_auth_mode("b", &vec![Ok(closed_status()), Err("x".to_string())]));
    assert_eq!((r.reachable, r.auth_mode.as_str(), r.providers.len()), (true, "oauth", 0));
}

#[test]
fn a_probe_is_refused_without_an_address() {
    let none: Vec<Result<Json, String>> = vec![];
    assert_eq!(probe_connection_config(" ", &none).err().as_deref(), Some("URL is required."));
    assert_eq!(
        test_connection_config(&payload(&[("mode", "ssh"), ("remoteUrl", "b")]), &none).err().as_deref(),
        Some("SSH connection testing is not supported in this build yet.")
    );
    assert_eq!(
        test_connection_config(&payload(&[("remoteUrl", " ")]), &none).err().as_deref(),
        Some("remoteUrl is required to test a connection.")
    );
    let step = test_connection_config(&payload(&[("remoteUrl", "b")]), &none);
    assert_eq!(step.map(fetched), Ok("http://b/api/status".to_string()));
    let step = probe_connection_config("b", &none);
    assert_eq!(step.map(fetched), Ok("http://b/api/status".to_string()));
}

#[test]
fn private_hosts_are_not_probed() {
    assert_eq!(check_probe_url("https://example.com/x"), Ok(()));
    assert_eq!(check_probe_url("nope"), Err("invalid probe URL".to_string()));
    assert_eq!(check_probe_url("ftp://h/"), Err("unsupported probe URL scheme: ftp".to_string()));
    assert_eq!(
        check_probe_url("http://2130706433/"),
        Err("probe URL points at a local/private host".to_string())
    );
    assert_eq!(check_probe_size(262_144), Ok(()));
    assert_eq!(check_probe_size(262_145), Err("probe response exceeded 256 KiB limit".to_string()));
}
