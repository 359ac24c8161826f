use veil_core::json::{get_member, Json, JsonNumber};
use veil_core::registry::{
    addon_entry_from_manifest, asset_entry_from_manifest, display_group_metadata, merge_sysdata_tier, metadata_for_category, output_addons, output_appdata, output_assets,
    output_sysdata, registry_to_output_json, system_entry, Registry, RegistryEntry,
};
use veil_core::tracking::{set_explicit_tracking_demands, TrackingState};

fn s(x: &str) -> Json {
    Json::Str(x.to_string())
}

fn n(x: u64) -> Json {
    Json::Number(JsonNumber::Unsigned(x))
}

fn obj(pairs: Vec<(&str, Json)>) -> Json {
    Json::Object(pairs.into_iter().map(|(k, v)| (k.to_string(), v)).collect())
}

fn entry(id: &str, category: &str, subtype: &str, metadata: Json, path: &str, exe: &str) -> RegistryEntry {
    RegistryEntry {
        id: id.to_string(),
        category: category.to_string(),
        subtype: subtype.to_string(),
        metadata,
        path: path.to_string(),
        exe_path: exe.to_string(),
    }
}

fn ids(v: &[RegistryEntry]) -> Vec<String> {
    v.iter().map(|e| e.id.clone()).collect()
}

#[test]
fn merging_a_tier_replaces_only_its_categories() {
    let existing = vec![
        system_entry("cpu", n(1)),
        system_entry("time", n(2)),
        system_entry("ram", n(3)),
        system_entry("mouse", n(4)),
    ];
    let fresh = vec![system_entry("time", n(20)), system_entry("mouse", n(40))];
    let merged = merge_sysdata_tier(&existing, fresh, &vec!["TIME".to_string(), "mouse".to_string(), "audio".to_string()]);
    assert_eq!(ids(&merged), vec!["cpu", "ram", "time", "mouse"]);
    assert_eq!(merged[2].metadata, n(20));
    assert_eq!(merged[3].metadata, n(40));
    let fresh_again = vec![system_entry("time", n(20)), system_entry("mouse", n(40))];
    let again = merge_sysdata_tier(&merged, fresh_again, &vec!["TIME".to_string(), "mouse".to_string(), "audio".to_string()]);
    assert_eq!(ids(&again), ids(&merged));
    assert_eq!(again[2].metadata, n(20));
}

#[test]
fn system_entries() {
    let e = system_entry("display", n(1));
    assert_eq!(e.id, "display_group");
    assert_eq!(e.category, "display");
    assert_eq!(e.subtype, "system");
    assert_eq!(e.path, "");
    let c = system_entry("cpu", n(2));
    assert_eq!(c.id, "cpu");
    let m = display_group_metadata(vec![n(1), n(2)]);
    assert_eq!(m, obj(vec![("monitors", Json::Array(vec![n(1), n(2)]))]));
}

#[test]
fn category_metadata_lookup() {
    let es = vec![
        system_entry("cpu", obj(vec![("usage", n(5))])),
        system_entry("CPU", obj(vec![("usage", n(9))])),
    ];
    assert_eq!(metadata_for_category(&es, "cpu"), obj(vec![("usage", n(5))]));
    assert_eq!(metadata_for_category(&es, "gpu"), Json::Null);
}

#[test]
fn addons_hide_their_executable_in_metadata() {
    let addons = vec![entry(
        "veil-bar",
        "addon",
        "addon",
        obj(vec![("name", s("bar")), ("exe_path", s("C:/bar.exe"))]),
        "C:/addons/bar",
        "C:/addons/bar/bar.exe",
    )];
    let out = output_addons(&addons);
    assert_eq!(
        out,
        vec![obj(vec![
            ("id", s("veil-bar")),
            ("metadata", obj(vec![("name", s("bar"))])),
            ("path", s("C:/addons/bar")),
            ("entry_path", s("C:/addons/bar/bar.exe")),
        ])]
    );
}

#[test]
fn assets_group_by_category() {
    let assets = vec![
        entry("t1", "theme", "css", obj(vec![("entry", s("main.css"))]), "p1", "NULL"),
        entry("w1", "wallpaper", "image", obj(vec![]), "p2", "NULL"),
        entry("t2", "theme", "css", obj(vec![("files", obj(vec![("entry", s("x.css"))]))]), "p3", "run.exe"),
    ];
    let out = output_assets(&assets);
    let themes = get_member(&out, "theme").unwrap();
    match themes {
        Json::Array(items) => {
            assert_eq!(items.len(), 2);
            assert_eq!(get_member(&items[0], "entry_path"), Some(&s("main.css")));
            assert_eq!(get_member(&items[1], "entry_path"), Some(&s("x.css")));
        }
        other => panic!("unexpected {:?}", other),
    }
    let walls = get_member(&out, "wallpaper").unwrap();
    match walls {
        Json::Array(items) => {
            assert_eq!(items.len(), 1);
            assert_eq!(get_member(&items[0], "entry_path"), Some(&s("")));
        }
        other => panic!("unexpected {:?}", other),
    }
}

#[test]
fn sysdata_lists_displays_then_categories() {
    let sys = vec![
        system_entry("display", obj(vec![("monitors", Json::Array(vec![obj(vec![("id", s("m1"))]), obj(vec![])]))])),
        system_entry("cpu", obj(vec![("usage", n(7))])),
    ];
    let out = output_sysdata(&sys);
    match get_member(&out, "displays").unwrap() {
        Json::Array(items) => {
            assert_eq!(items.len(), 2);
            assert_eq!(get_member(&items[0], "id"), Some(&s("m1")));
            assert_eq!(get_member(&items[1], "id"), Some(&s("unknown")));
        }
        other => panic!("unexpected {:?}", other),
    }
    assert_eq!(get_member(&out, "cpu"), Some(&obj(vec![("usage", n(7))])));
    assert_eq!(get_member(&out, "gpu"), Some(&Json::Null));
}

#[test]
fn appdata_groups_windows_by_monitor() {
    let sys = vec![
        system_entry("display", obj(vec![("id", s("DISPLAY1"))])),
        system_entry("display", obj(vec![("id", s("DISPLAY2"))])),
    ];
    let app = vec![entry(
        "w",
        "active_window",
        "window",
        obj(vec![("monitor_id", s("DISPLAY2")), ("app_name", s("code")), ("pid", n(42))]),
        "",
        "",
    )];
    let out = output_appdata(&app, &sys);
    assert_eq!(get_member(&out, "DISPLAY1"), Some(&obj(vec![("windows", Json::Array(vec![]))])));
    let d2 = get_member(&out, "DISPLAY2").unwrap();
    match get_member(d2, "windows").unwrap() {
        Json::Array(ws) => {
            assert_eq!(ws.len(), 1);
            assert_eq!(get_member(&ws[0], "app_name"), Some(&s("code")));
            assert_eq!(get_member(&ws[0], "pid"), Some(&n(42)));
            assert_eq!(get_member(&ws[0], "window_state"), Some(&s("normal")));
            assert_eq!(get_member(&ws[0], "focused"), Some(&Json::Bool(false)));
        }
        other => panic!("unexpected {:?}", other),
    }
}

#[test]
fn registry_document_meta() {
    let reg = Registry::new();
    let mut st = TrackingState::new();
    set_explicit_tracking_demands(&mut st, &vec!["cpu".to_string()]);
    let out = registry_to_output_json(&reg, &st, false, false, 1234);
    let meta = get_member(&out, "__meta").unwrap();
    assert_eq!(get_member(meta, "written_ms"), Some(&n(1234)));
    assert_eq!(get_member(meta, "tracking_active"), Some(&Json::Bool(true)));
    let sections = get_member(meta, "sections").unwrap();
    assert_eq!(get_member(sections, "cpu"), Some(&obj(vec![("tracked", Json::Bool(true))])));
    assert_eq!(get_member(sections, "gpu"), Some(&obj(vec![("tracked", Json::Bool(false))])));
    let paused = registry_to_output_json(&reg, &st, true, false, 1234);
    assert_eq!(get_member(get_member(&paused, "__meta").unwrap(), "tracking_active"), Some(&Json::Bool(false)));
    assert_eq!(get_member(&out, "addons"), Some(&Json::Array(vec![])));
}

#[test]
fn discovered_entries() {
    let meta = obj(vec![("id", s("veil-bar")), ("exe_path", s("bin/bar.exe")), ("name", s("Bar"))]);
    let e = addon_entry_from_manifest(meta, "bar", "/a/bar", Some("/a/bar/bin/bar.exe".to_string()));
    assert_eq!(e.id, "veil-bar");
    assert_eq!(e.category, "addon");
    assert_eq!(e.subtype, "bar");
    assert_eq!(e.path, "/a/bar");
    assert_eq!(e.exe_path, "/a/bar/bin/bar.exe");
    assert_eq!(get_member(&e.metadata, "exe_path"), Some(&s("/a/bar/bin/bar.exe")));
    assert_eq!(get_member(&e.metadata, "name"), Some(&s("Bar")));
    let bare = addon_entry_from_manifest(obj(vec![("name", s("X"))]), "x", "/a/x", None);
    assert_eq!(bare.id, "");
    assert_eq!(bare.exe_path, "");
    let asset = asset_entry_from_manifest(obj(vec![("id", s("sky"))]), "wallpaper", "sky", "/w/sky", None);
    assert_eq!(asset.exe_path, "NULL");
    assert_eq!(asset.category, "wallpaper");
    assert_eq!(asset.metadata, obj(vec![("id", s("sky"))]));
    let runnable = asset_entry_from_manifest(obj(vec![("exe_path", s("r.exe"))]), "widget", "w", "/w", Some("/w/r.exe".to_string()));
    assert_eq!(runnable.exe_path, "/w/r.exe");
    assert_eq!(runnable.metadata, obj(vec![("exe_path", s("/w/r.exe"))]));
}
