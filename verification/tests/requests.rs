use veil_core::config::{current_config, fast_pull_rate_ms, pull_paused, ConfigStore};
use veil_core::dispatch::{
    answer_sysdata, dispatch_backend, dispatch_registry, dispatch_tracking, filter_snapshot_by_sections, http_body,
    namespace_of, sysdata_query, write_log_request, Backend, IpcResponse, Namespace, SysdataQuery,
};
use veil_core::http::{
    body_bytes_to_read, header_content_length, is_header_end, not_found_body, parse_query_to_args, response_head,
    route_request, status_text, url_decode, HttpRoute,
};
use veil_core::json::{copy_without, get_member, Json, JsonNumber};
use veil_core::registry::{Registry, RegistryEntry};
use veil_core::tracking::{Section, TrackingState};

fn s(x: &str) -> Json {
    Json::Str(x.to_string())
}

fn n(x: u64) -> Json {
    Json::Number(JsonNumber::Unsigned(x))
}

fn obj(pairs: Vec<(&str, Json)>) -> Json {
    Json::Object(pairs.into_iter().map(|(k, v)| (k.to_string(), v)).collect())
}

fn backend() -> Backend {
    Backend { config: ConfigStore::new(), tracking: TrackingState::new() }
}

fn entry(category: &str, metadata: Json) -> RegistryEntry {
    RegistryEntry {
        id: format!("system-{}", category),
        category: category.to_string(),
        subtype: "system".to_string(),
        metadata,
        path: String::new(),
        exe_path: String::new(),
    }
}

#[test]
fn url_decoding() {
    assert_eq!(url_decode("a%20b+c"), "a b c");
    assert_eq!(url_decode("100%"), "100%");
    assert_eq!(url_decode("%zz1"), "%zz1");
    assert_eq!(url_decode("%41%62"), "Ab");
    assert_eq!(url_decode("plain-text"), "plain-text");
}

#[test]
fn query_strings_become_args() {
    assert_eq!(parse_query_to_args(None), None);
    assert_eq!(parse_query_to_args(Some("")), None);
    assert_eq!(parse_query_to_args(Some("novalue")), None);
    let args = parse_query_to_args(Some("sections=cpu,%20ram&name=a+b")).unwrap();
    assert_eq!(
        args,
        obj(vec![("sections", Json::Array(vec![s("cpu"), s("ram")])), ("name", s("a b"))])
    );
    let later = parse_query_to_args(Some("x=1&x=2")).unwrap();
    assert_eq!(later, obj(vec![("x", s("2"))]));
}

#[test]
fn request_lines_route() {
    match route_request("GET /api/registry/get_data?sections=cpu HTTP/1.1") {
        HttpRoute::Api { post, ns, cmd, query } => {
            assert!(!post);
            assert_eq!(ns, "registry");
            assert_eq!(cmd, "get_data");
            assert_eq!(query, Some("sections=cpu".to_string()));
        }
        other => panic!("unexpected {:?}", other),
    }
    match route_request("POST /api/backend/set_pull_paused HTTP/1.1") {
        HttpRoute::Api { post, query, .. } => {
            assert!(post);
            assert_eq!(query, None);
        }
        other => panic!("unexpected {:?}", other),
    }
    assert!(matches!(route_request("OPTIONS /api/x/y HTTP/1.1"), HttpRoute::Preflight));
    assert!(matches!(route_request("GET /index.html HTTP/1.1"), HttpRoute::NotFound));
    assert!(matches!(route_request("GET"), HttpRoute::Ignore));
}

#[test]
fn headers_and_bodies() {
    assert_eq!(header_content_length("Content-Length: 42"), Some(42));
    assert_eq!(header_content_length("  content-length:7  "), Some(7));
    assert_eq!(header_content_length("Content-Length: abc"), Some(0));
    assert_eq!(header_content_length("Host: localhost"), None);
    assert!(is_header_end("\r\n"));
    assert!(!is_header_end("Host: x"));
    assert_eq!(body_bytes_to_read(true, 10), Some(10));
    assert_eq!(body_bytes_to_read(true, 5_000_000), Some(1_048_576));
    assert_eq!(body_bytes_to_read(false, 10), None);
    assert_eq!(body_bytes_to_read(true, 0), None);
}

#[test]
fn response_heads() {
    assert_eq!(status_text(204), "No Content");
    assert_eq!(status_text(404), "Not Found");
    assert_eq!(status_text(200), "OK");
    let head = response_head(200, Some("application/json"), 12);
    assert!(head.starts_with("HTTP/1.1 200 OK\r\n"));
    assert!(head.contains("Access-Control-Allow-Origin: *\r\n"));
    assert!(head.ends_with("Content-Type: application/json\r\nContent-Length: 12\r\n\r\n"));
    let empty = response_head(204, None, 0);
    assert!(empty.ends_with("Connection: close\r\n\r\n"));
    assert_eq!(
        not_found_body(),
        obj(vec![("ok", Json::Bool(false)), ("error", s("Unknown endpoint. Use /api/{ns}/{cmd}"))])
    );
}

#[test]
fn json_member_removal() {
    let j = obj(vec![("a", n(1)), ("b", n(2)), ("a", n(3))]);
    assert_eq!(copy_without(&j, "a"), obj(vec![("b", n(2))]));
    assert_eq!(copy_without(&Json::Null, "a"), Json::Null);
    assert_eq!(get_member(&j, "a"), Some(&n(1)));
}

#[test]
fn backend_config_commands() {
    let mut b = backend();
    let h = dispatch_backend(&mut b, "get_config", None, 0);
    assert_eq!(
        h.reply.unwrap(),
        obj(vec![
            ("fast_pull_rate_ms", n(50)),
            ("slow_pull_rate_ms", n(1000)),
            ("data_pull_paused", Json::Bool(false)),
            ("refresh_on_request", Json::Bool(true)),
            ("ui_data_exception_enabled", Json::Bool(true)),
        ])
    );
    let args = obj(vec![("rate_ms", n(9999))]);
    let h = dispatch_backend(&mut b, "set_fast_pull_rate", Some(&args), 0);
    assert_eq!(h.reply.unwrap(), obj(vec![("fast_pull_rate_ms", n(5000))]));
    assert!(h.save_config);
    assert!(!h.wake_updaters);
    assert_eq!(fast_pull_rate_ms(&b.config), 5000);
    let args = obj(vec![("paused", Json::Bool(true))]);
    let h = dispatch_backend(&mut b, "set_pull_paused", Some(&args), 0);
    assert_eq!(h.reply.unwrap(), obj(vec![("data_pull_paused", Json::Bool(true))]));
    assert!(pull_paused(&b.config));
    assert!(current_config(&b.config).data_pull_paused);
}

#[test]
fn backend_errors() {
    let mut b = backend();
    let h = dispatch_backend(&mut b, "set_slow_pull_rate", None, 0);
    assert_eq!(h.reply.unwrap_err(), "Missing 'rate_ms' in args");
    assert!(!h.save_config);
    let args = obj(vec![("paused", s("yes"))]);
    let h = dispatch_backend(&mut b, "set_pull_paused", Some(&args), 0);
    assert_eq!(h.reply.unwrap_err(), "Missing 'paused' in args");
    let h = dispatch_backend(&mut b, "set_refresh_on_request", None, 0);
    assert_eq!(h.reply.unwrap_err(), "Missing 'enabled' in args");
    let h = dispatch_backend(&mut b, "set_tracking_demands", None, 0);
    assert_eq!(h.reply.unwrap_err(), "Missing 'sections' in args");
    let h = dispatch_backend(&mut b, "reboot", None, 0);
    assert_eq!(h.reply.unwrap_err(), "Unknown backend command: reboot");
    assert!(!pull_paused(&b.config));
}

#[test]
fn heartbeat_and_demands() {
    let mut b = backend();
    let h = dispatch_backend(&mut b, "ui_heartbeat", None, 777);
    assert_eq!(h.reply.unwrap(), obj(vec![("ok", Json::Bool(true))]));
    assert!(h.wake_updaters);
    assert_eq!(b.tracking.last_ui_heartbeat_ms, 777);
    let args = obj(vec![("sections", Json::Array(vec![s("cpu"), s("bogus")]))]);
    let h = dispatch_backend(&mut b, "set_tracking_demands", Some(&args), 0);
    assert_eq!(h.reply.unwrap(), obj(vec![("sections", Json::Array(vec![s("cpu"), s("bogus")]))]));
    assert!(h.wake_updaters);
    assert!(b.tracking.explicit.has(Section::Cpu));
    let h = dispatch_tracking(&mut b, "set_demands", Some(&args));
    assert_eq!(h.reply.unwrap(), obj(vec![("ok", Json::Bool(true))]));
    assert!(!h.wake_updaters);
    let h = dispatch_tracking(&mut b, "clear", None);
    assert_eq!(h.reply.unwrap_err(), "Unknown tracking command: clear");
}

#[test]
fn snapshot_holds_only_requested_sections() {
    let output = obj(vec![
        ("sysdata", obj(vec![("cpu", n(1)), ("ram", n(2)), ("gpu", n(3))])),
        ("appdata", Json::Array(vec![])),
    ]);
    let picked = filter_snapshot_by_sections(&output, &vec!["RAM".to_string(), "cpu".to_string(), "wifi".to_string()]);
    assert_eq!(
        picked,
        obj(vec![("sysdata", obj(vec![("ram", n(2)), ("cpu", n(1))])), ("appdata", Json::Null)])
    );
    let with_app = filter_snapshot_by_sections(&output, &vec!["appdata".to_string()]);
    assert_eq!(with_app, obj(vec![("sysdata", obj(vec![])), ("appdata", Json::Array(vec![]))]));
    let all = filter_snapshot_by_sections(&output, &vec![]);
    assert_eq!(
        all,
        obj(vec![("sysdata", obj(vec![("cpu", n(1)), ("ram", n(2)), ("gpu", n(3))])), ("appdata", Json::Array(vec![]))])
    );
}

#[test]
fn registry_snapshot_sets_demands() {
    let mut b = backend();
    let reg = Registry::new();
    let args = obj(vec![("sections", Json::Array(vec![s("gpu")]))]);
    let h = dispatch_registry(&mut b, &reg, "get_data", Some(&args), 0);
    assert!(h.wake_updaters);
    assert!(b.tracking.explicit.has(Section::Gpu));
    assert!(h.reply.is_ok());
    let h = dispatch_registry(&mut b, &reg, "list_addons", None, 0);
    assert_eq!(h.reply.unwrap(), Json::Array(vec![]));
    let h = dispatch_registry(&mut b, &reg, "wipe", None, 0);
    assert_eq!(h.reply.unwrap_err(), "Unknown registry command: wipe");
    assert!(!h.wake_updaters);
}

#[test]
fn sysdata_queries() {
    assert!(matches!(sysdata_query("get_displays"), Ok(SysdataQuery::Displays)));
    assert!(matches!(sysdata_query("get_time"), Ok(SysdataQuery::Time)));
    match sysdata_query("get_power") {
        Ok(SysdataQuery::Category(c)) => assert_eq!(c, "power"),
        other => panic!("unexpected {:?}", other),
    }
    assert_eq!(sysdata_query("get_weather").unwrap_err(), "Unknown sysdata command: get_weather");
    let mut reg = Registry::new();
    reg.sysdata.push(entry("cpu", obj(vec![("temperature", n(55)), ("usage", n(3))])));
    let temps = answer_sysdata(&reg, &SysdataQuery::Temperatures).unwrap();
    assert_eq!(temps, obj(vec![("cpu", n(55)), ("gpu", Json::Null)]));
    let cpu = answer_sysdata(&reg, &SysdataQuery::Category("cpu".to_string())).unwrap();
    assert_eq!(cpu, obj(vec![("temperature", n(55)), ("usage", n(3))]));
    assert!(answer_sysdata(&reg, &SysdataQuery::Time).is_none());
}

#[test]
fn documented_sysdata_commands_are_answered() {
    for (cmd, cat) in [
        ("get_wifi", "wifi"),
        ("get_bluetooth", "bluetooth"),
        ("get_system", "system"),
        ("get_processes", "processes"),
        ("get_idle", "idle"),
    ] {
        match sysdata_query(cmd) {
            Ok(SysdataQuery::Category(c)) => assert_eq!(c, cat),
            other => panic!("unexpected {:?}", other),
        }
    }
    assert!(matches!(sysdata_query("get_media"), Ok(SysdataQuery::Media)));
    match sysdata_query("get_tray_icons") {
        Ok(SysdataQuery::AppCategory(c)) => assert_eq!(c, "tray_icons"),
        other => panic!("unexpected {:?}", other),
    }
    match sysdata_query("get_notifications") {
        Ok(SysdataQuery::AppCategory(c)) => assert_eq!(c, "notifications"),
        other => panic!("unexpected {:?}", other),
    }
    let mut reg = Registry::new();
    reg.sysdata.push(entry("wifi", obj(vec![("ssid", s("home"))])));
    reg.sysdata.push(entry("audio", obj(vec![("media_session", obj(vec![("playing", Json::Bool(true))]))])));
    reg.appdata.push(entry("tray_icons", Json::Array(vec![s("clock")])));
    let wifi = answer_sysdata(&reg, &sysdata_query("get_wifi").unwrap()).unwrap();
    assert_eq!(wifi, obj(vec![("ssid", s("home"))]));
    let media = answer_sysdata(&reg, &SysdataQuery::Media).unwrap();
    assert_eq!(media, obj(vec![("playing", Json::Bool(true))]));
    let icons = answer_sysdata(&reg, &SysdataQuery::AppCategory("tray_icons".to_string())).unwrap();
    assert_eq!(icons, Json::Array(vec![s("clock")]));
    assert_eq!(answer_sysdata(&Registry::new(), &SysdataQuery::Media).unwrap(), Json::Null);
}

#[test]
fn namespaces_and_replies() {
    assert!(matches!(namespace_of("registry"), Ok(Namespace::Registry)));
    assert!(matches!(namespace_of("tracking"), Ok(Namespace::Tracking)));
    assert_eq!(namespace_of("control").unwrap_err(), "Unknown namespace: control");
    let ok = IpcResponse::ok(n(1));
    assert!(ok.ok);
    assert_eq!(ok.data, Some(n(1)));
    let err = IpcResponse::err("bad".to_string());
    assert!(!err.ok);
    assert_eq!(err.error, Some("bad".to_string()));
    assert_eq!(http_body(Ok(n(2))), obj(vec![("ok", Json::Bool(true)), ("data", n(2))]));
    assert_eq!(http_body(Err("x".to_string())), obj(vec![("ok", Json::Bool(false)), ("error", s("x"))]));
}

#[test]
fn log_requests() {
    let args = obj(vec![("name", s("ui.log")), ("content", s("hello"))]);
    assert_eq!(write_log_request("write_log", Some(&args)).unwrap(), ("ui.log".to_string(), "hello".to_string()));
    let bad = obj(vec![("name", s("../x.log")), ("content", s("hello"))]);
    assert_eq!(write_log_request("write_log", Some(&bad)).unwrap_err(), "Invalid log filename: \"../x.log\"");
    let empty = obj(vec![("name", s("")), ("content", s("hello"))]);
    assert_eq!(write_log_request("write_log", Some(&empty)).unwrap_err(), "Invalid log filename: \"\"");
    let no_content = obj(vec![("name", s("a.log"))]);
    assert_eq!(write_log_request("write_log", Some(&no_content)).unwrap_err(), "Missing string field 'content'");
    assert_eq!(write_log_request("write_log", None).unwrap_err(), "write_log requires args { name, content }");
    assert_eq!(write_log_request("delete", None).unwrap_err(), "Unknown control command: delete");
}
