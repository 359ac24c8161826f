use veil_core::shell::{request_clean_path, request_file_path, sentinel_request_path};
use veil_core::addon::{
    addon_from_entry, addon_name_arg, addon_status, discover_addons, find_addon, process_matches_addon,
    registry_entry_to_addon, resolve_addon_entry, stop_outcome, Addon,
};
use veil_core::cli::{
    best_matches, cli_mode, discovery_subfolder, entry_is_wildcard, fallback_executable, item_from_manifest,
    item_from_typed_manifest, list_line, manifest_type, parse_creator_and_id, resolve_content_dirs,
    route_to_addon_command, validate_type2, CliMode, FoundItem, Type1,
};
use veil_core::daemon::{
    begin_interruptible_sleep, media_cache_value, refresh_media_session_cache_if_due, wake_updaters, MediaPoller,
    WakeSignal,
};
use veil_core::json::{Json, JsonNumber};
use veil_core::paths::{user_home_dir, veil_root_dir};
use veil_core::registry::RegistryEntry;
use veil_core::shell::{
    addon_custom_tab_path, append_sentinel_data_query, custom_tab_for, file_path_to_sentinel_url, focused_addon_index,
    guess_mime_type, is_preview_extension, is_preview_media, is_wallpaper_addon, mime_type_for_extension,
    pretty_label, sentinel_shell_html_path, shell_tab_urls, sort_custom_tabs, split_path, CustomTabPage,
};
use veil_core::tray::{
    addon_menu_actions, addon_request, autostart_addon_names, autostart_enabled, autostart_label,
    is_backend_startup_enabled, on_tray_input, reconcile_autostart, set_backend_startup_enabled, toggle_autostart,
    tray_settings_path, wake_deadline, ClickState, MenuAction, TrayInput, TrayOutput, TraySettings,
};

fn s(x: &str) -> Json {
    Json::Str(x.to_string())
}

fn obj(pairs: Vec<(&str, Json)>) -> Json {
    Json::Object(pairs.into_iter().map(|(k, v)| (k.to_string(), v)).collect())
}

fn strings(v: &[&str]) -> Vec<String> {
    v.iter().map(|x| x.to_string()).collect()
}

fn addon_entry(id: &str, name: &str, exe: &str) -> RegistryEntry {
    RegistryEntry {
        id: id.to_string(),
        category: "addon".to_string(),
        subtype: "addon".to_string(),
        metadata: obj(vec![("name", s(name)), ("package", s(id))]),
        path: String::new(),
        exe_path: exe.to_string(),
    }
}

fn addon(name: &str) -> Addon {
    Addon { name: name.to_string(), exe_path: String::new(), dir: String::new(), package: name.to_string() }
}

#[test]
fn mime_types() {
    assert_eq!(mime_type_for_extension(Some("HTML")), "text/html");
    assert_eq!(mime_type_for_extension(Some("js")), "application/javascript");
    assert_eq!(mime_type_for_extension(Some("xyz")), "application/octet-stream");
    assert_eq!(mime_type_for_extension(None), "application/octet-stream");
    assert_eq!(guess_mime_type("shell/index.CSS"), "text/css");
    assert_eq!(guess_mime_type("shell/README"), "application/octet-stream");
    assert_eq!(guess_mime_type("photo.jpeg"), "image/jpeg");
    assert_eq!(guess_mime_type("a.b/page.HTML"), "text/html");
    assert_eq!(guess_mime_type(".hidden"), "application/octet-stream");
}

#[test]
fn preview_media() {
    assert!(is_preview_extension(Some("PNG")));
    assert!(!is_preview_extension(Some("mp4")));
    assert!(!is_preview_extension(None));
    assert!(is_preview_media("walls/sky.webp"));
    assert!(!is_preview_media("walls/clip.mp4"));
    assert!(!is_preview_media("walls/noext"));
}

#[test]
fn labels_and_paths() {
    assert_eq!(split_path(" a . b..c "), strings(&["a", "b", "c"]));
    assert_eq!(pretty_label("my-cool_tab  name"), "My Cool Tab Name");
    assert_eq!(pretty_label(""), "");
    assert_eq!(
        file_path_to_sentinel_url("\\\\?\\C:\\Users\\me\\.Sentinel\\My Page.html", "C:\\Users\\me").unwrap(),
        "sentinel://localhost/.Sentinel/My%20Page.html"
    );
    assert_eq!(
        file_path_to_sentinel_url("D:\\other\\x.html", "C:\\Users\\me").unwrap_err(),
        "Path 'D:\\other\\x.html' is not under sentinel home 'C:\\Users\\me'"
    );
    assert!(addon_custom_tab_path("root", "Stats").ends_with("stats.html"));
    assert!(sentinel_shell_html_path("home").ends_with("sentinel_custom_tabs_shell.html"));
    assert!(tray_settings_path("root").unwrap().ends_with("tray_settings.json"));
    assert!(veil_root_dir("home").ends_with("VEIL"));
    let sep = std::path::MAIN_SEPARATOR;
    assert_eq!(tray_settings_path("root").unwrap(), format!("root{sep}tray_settings.json"));
    assert_eq!(tray_settings_path("root/").unwrap(), "root/tray_settings.json");
    assert_eq!(veil_root_dir("/home/u"), format!("/home/u{sep}ProjectOpen{sep}VEIL"));
    assert_eq!(addon_custom_tab_path("", "Main"), format!("options{sep}main.html"));
}

#[test]
fn sentinel_data_is_percent_encoded() {
    let url = append_sentinel_data_query("sentinel://localhost/shell.html", "{\"a\":1} é");
    assert_eq!(url, "sentinel://localhost/shell.html?sentinelData=%7B%22a%22%3A1%7D%20%C3%A9");
    let more = append_sentinel_data_query("http://x/?v=1", "a-b_c.d~");
    assert_eq!(more, "http://x/?v=1&sentinelData=a-b_c.d~");
}

#[test]
fn custom_tabs() {
    let t = custom_tab_for(Some("Editor"), Some("HTML"), "C:/opts/Editor.html").unwrap();
    assert_eq!(t.id, "editor");
    assert_eq!(t.title, "Editor");
    assert_eq!(t.path, "C:/opts/Editor.html");
    assert!(custom_tab_for(Some("x"), Some("txt"), "p").is_none());
    assert!(custom_tab_for(Some(""), Some("html"), "p").is_none());
    assert!(custom_tab_for(None, Some("html"), "p").is_none());
    let tab = |id: &str, title: &str| CustomTabPage { id: id.to_string(), title: title.to_string(), path: String::new() };
    let sorted = sort_custom_tabs(vec![
        tab("zeta", "Zeta"),
        tab("settings", "Settings"),
        tab("alpha", "alpha"),
        tab("library", "Library"),
        tab("editor", "Editor"),
    ]);
    let ids: Vec<String> = sorted.iter().map(|t| t.id.clone()).collect();
    assert_eq!(ids, strings(&["library", "editor", "settings", "alpha", "zeta"]));
}

#[test]
fn focused_addon() {
    let ids = strings(&["veil-bar", "veil-clock"]);
    let names = strings(&["Bar", "Clock"]);
    assert_eq!(focused_addon_index(&ids, &names, Some("CLOCK")), 1);
    assert_eq!(focused_addon_index(&ids, &names, Some("VEIL-BAR")), 0);
    assert_eq!(focused_addon_index(&ids, &names, Some("nothing")), 0);
    assert_eq!(focused_addon_index(&ids, &names, None), 0);
}

#[test]
fn cli_type_checks() {
    assert!(validate_type2(Type1::Bar, "Widget").is_ok());
    assert!(validate_type2(Type1::Theme, "SELECT").is_ok());
    assert_eq!(
        validate_type2(Type1::Wallpaper, "widget").unwrap_err(),
        "Invalid type2 'widget' for Wallpaper. Allowed: cycle/select"
    );
    assert_eq!(validate_type2(Type1::Desktop, "cycle").unwrap_err(), "Invalid type2 'cycle' for Desktop. Allowed: widget");
    assert_eq!(discovery_subfolder(Type1::Desktop), "Widget");
    assert_eq!(manifest_type(Type1::Theme), "theme");
}

#[test]
fn cli_references() {
    assert_eq!(
        parse_creator_and_id("alice:clock::42"),
        ("alice".to_string(), "clock".to_string(), Some("42".to_string()))
    );
    assert_eq!(parse_creator_and_id("clock"), (String::new(), "clock".to_string(), None));
    assert_eq!(
        parse_creator_and_id("carol:dock::a:b::c"),
        ("carol".to_string(), "dock".to_string(), Some("a:b::c".to_string()))
    );
    assert_eq!(parse_creator_and_id("bob:bar"), ("bob".to_string(), "bar".to_string(), None));
}

#[test]
fn cli_matching_and_listing() {
    let item = |c: &str, n: &str| FoundItem { creator: c.to_string(), name: n.to_string(), id: "1".to_string(), path: String::new() };
    let items = vec![
        item("Alice", "Clock"),
        item("Bob", "Clock Pro"),
        item("alice", "Bar"),
        item("Carol", "clockwork"),
        item("x", "clock"),
        item("y", "clock"),
        item("z", "clock"),
    ];
    assert_eq!(best_matches(&items, "", "CLOCK"), vec![0, 1, 3, 4, 5]);
    assert_eq!(best_matches(&items, "alice", ""), vec![0, 2]);
    assert_eq!(best_matches(&items, "nobody", "clock"), Vec::<usize>::new());
    assert_eq!(list_line(0, &items[0]), " 1. Alice:Clock::1");
}

#[test]
fn cli_manifests() {
    let m = obj(vec![("name", s("Clock")), ("id", s("42"))]);
    let it = item_from_manifest("alice", &m, "C:/w/clock").unwrap();
    assert_eq!(it.creator, "alice");
    assert_eq!(it.name, "Clock");
    assert!(item_from_manifest("alice", &obj(vec![("name", s("Clock"))]), "p").is_none());
    let typed = obj(vec![
        ("name", s("Sky")),
        ("id", s("7")),
        ("type", s("Wallpaper")),
        ("author", obj(vec![("name", s("Dana"))])),
    ]);
    let t = item_from_typed_manifest(&typed, Type1::Wallpaper, Some("folder"), "p").unwrap();
    assert_eq!(t.creator, "Dana");
    assert!(item_from_typed_manifest(&typed, Type1::Theme, None, "p").is_none());
    let anon = obj(vec![("name", s("Sky")), ("id", s("7")), ("type", s("wallpaper"))]);
    assert_eq!(item_from_typed_manifest(&anon, Type1::Wallpaper, None, "p").unwrap().creator, "Unknown");
    assert_eq!(item_from_typed_manifest(&anon, Type1::Wallpaper, Some("fold"), "p").unwrap().creator, "fold");
}

#[test]
fn cli_modes() {
    assert!(matches!(cli_mode(&strings(&["veil", "--sentinel-ui"])), Ok(CliMode::SentinelUi)));
    match cli_mode(&strings(&["veil", "--addon-config-ui", "bar"])) {
        Ok(CliMode::AddonConfigUi(x)) => assert_eq!(x, "bar"),
        other => panic!("unexpected {:?}", other),
    }
    assert_eq!(
        cli_mode(&strings(&["veil", "--addon-config-ui"])).unwrap_err(),
        "Missing addon id/name after --addon-config-ui"
    );
    match cli_mode(&strings(&["veil", "--addon-webview", "page.html", "--addon-webview-title", "T"])) {
        Ok(CliMode::AddonWebview { page, title }) => {
            assert_eq!(page, "page.html");
            assert_eq!(title, Some("T".to_string()));
        }
        other => panic!("unexpected {:?}", other),
    }
    assert_eq!(cli_mode(&strings(&["veil", "--addon-webview"])).unwrap_err(), "Missing page path after --addon-webview");
    assert!(matches!(cli_mode(&strings(&["veil"])), Ok(CliMode::NoArguments)));
    assert!(matches!(cli_mode(&strings(&["veil", "list"])), Ok(CliMode::Command)));
}

#[test]
fn cli_routing_and_dirs() {
    let cmds = strings(&["veil-bar", "Wallpaper"]);
    assert_eq!(route_to_addon_command(&cmds, "WALLPAPER"), Some(1));
    assert_eq!(route_to_addon_command(&cmds, "clock"), None);
    assert!(entry_is_wildcard("bin/*.exe"));
    assert!(!entry_is_wildcard("bin/a.exe"));
    assert_eq!(fallback_executable("veil-bar"), "bin/veil-bar.exe");
    assert_eq!(
        resolve_content_dirs(&strings(&["a", "", "b"]), Some("root".to_string())),
        strings(&["a", "b", "root"])
    );
    assert_eq!(resolve_content_dirs(&vec![], None), Vec::<String>::new());
}

#[test]
fn addons_from_registry_entries() {
    let e = addon_entry("veil-bar", "Bar", "C:/addons/bar/bar.exe");
    let a = addon_from_entry(&e, Some("C:/addons/bar".to_string())).unwrap();
    assert_eq!(a.name, "veil-bar");
    assert_eq!(a.package, "veil-bar");
    assert_eq!(a.dir, "C:/addons/bar");
    assert_eq!(addon_from_entry(&e, None).unwrap_err(), "Invalid exe path");
    let mut bare = e.duplicate();
    bare.metadata = obj(vec![]);
    assert_eq!(addon_from_entry(&bare, Some("d".to_string())).unwrap_err(), "Missing package in metadata");
    let viaparent = registry_entry_to_addon(&e).unwrap();
    assert_eq!(viaparent.dir, "C:/addons/bar");
    assert_eq!(registry_entry_to_addon(&addon_entry("x", "X", "")).unwrap_err(), "Invalid exe path");
    let plain = registry_entry_to_addon(&addon_entry("veil-clock", "Clock", "/opt/veil/Addons/clock/bin/clock.exe"));
    assert_eq!(plain.unwrap().dir, "/opt/veil/Addons/clock/bin");
    assert_eq!(registry_entry_to_addon(&addon_entry("veil-clock", "Clock", "clock.exe")).unwrap().dir, "");
}

#[test]
fn addon_lookup_and_replies() {
    let addons = vec![addon_entry("veil-bar", "Bar", "b.exe"), addon_entry("veil-clock", "Clock", "c.exe")];
    assert_eq!(find_addon(&addons, "veil-clock"), Some(1));
    assert_eq!(find_addon(&addons, "bar"), Some(0));
    assert_eq!(find_addon(&addons, "VEIL-BAR"), None);
    let args = obj(vec![("addon_name", s("Clock"))]);
    assert_eq!(resolve_addon_entry(&addons, Some(&args)).unwrap(), ("Clock".to_string(), 1));
    let missing = obj(vec![("addon_name", s("nope"))]);
    assert_eq!(resolve_addon_entry(&addons, Some(&missing)).unwrap_err(), "Addon not found: nope");
    assert_eq!(addon_name_arg(None).unwrap_err(), "Missing addon_name in args");
    assert_eq!(addon_name_arg(Some(&obj(vec![("name", s("bar"))]))).unwrap(), "bar");
    assert_eq!(addon_name_arg(Some(&obj(vec![("name", s("bar")), ("addon_name", s("baz"))]))).unwrap(), "bar");
    assert_eq!(addon_status("started", "bar"), obj(vec![("status", s("started")), ("addon", s("bar"))]));
    assert_eq!(stop_outcome("bar", true).unwrap(), obj(vec![("status", s("stopped")), ("addon", s("bar"))]));
    assert_eq!(stop_outcome("bar", false).unwrap_err(), "Failed to stop addon: bar");
    assert!(process_matches_addon(false, "VEIL-BAR.EXE", "veil-bar"));
    assert!(process_matches_addon(true, "other.exe", "veil-bar"));
    assert!(!process_matches_addon(false, "veil-bar", "veil-bar"));
}

#[test]
fn addons_discovered_from_listing() {
    let listing = Json::Array(vec![
        obj(vec![("id", s("veil-bar")), ("metadata", obj(vec![("name", s("Bar"))])), ("path", s("C:/a")), ("exe_path", s("C:/a/b.exe"))]),
        obj(vec![("id", s("x"))]),
    ]);
    let found = discover_addons(Some(&listing));
    assert_eq!(found.len(), 2);
    assert_eq!(found[0].name, "Bar");
    assert_eq!(found[0].package, "veil-bar");
    assert_eq!(found[0].dir, "C:/a");
    assert_eq!(found[1].name, "unknown");
    assert!(discover_addons(Some(&s("no"))).is_empty());
    assert!(discover_addons(None).is_empty());
}

#[test]
fn autostart_flags() {
    let mut flags = vec![("bar".to_string(), true), ("clock".to_string(), false), ("bar".to_string(), false)];
    assert!(autostart_enabled(&flags, "bar"));
    assert!(!autostart_enabled(&flags, "clock"));
    assert!(!autostart_enabled(&flags, "new"));
    assert!(!toggle_autostart(&mut flags, "bar"));
    assert!(!autostart_enabled(&flags, "bar"));
    assert!(toggle_autostart(&mut flags, "new"));
    assert!(autostart_enabled(&flags, "new"));
    // Toggling twice gives the flag back.
    assert!(!toggle_autostart(&mut flags, "new"));
    assert!(!autostart_enabled(&flags, "new"));
    assert!(!autostart_enabled(&flags, "clock"));
    let settings = TraySettings { run_backend_at_startup: false, addon_autostart: vec![("a".to_string(), true), ("b".to_string(), false), ("c".to_string(), true)] };
    assert_eq!(autostart_addon_names(&settings), strings(&["a", "c"]));
    let fresh = reconcile_autostart(&vec![addon("c"), addon("d"), addon("c")], &settings.addon_autostart);
    assert_eq!(fresh, vec![("c".to_string(), true), ("d".to_string(), false)]);
    let defaults = TraySettings::new();
    assert!(!defaults.run_backend_at_startup);
    assert!(defaults.addon_autostart.is_empty());
}

#[test]
fn tray_menus() {
    let a = Addon { name: "bar".to_string(), exe_path: String::new(), dir: String::new(), package: "veil-bar".to_string() };
    let acts = addon_menu_actions(&a);
    assert_eq!(acts.len(), 5);
    assert!(matches!(&acts[3], MenuAction::OpenConfigUi(p) if p == "veil-bar"));
    let (cmd, args) = addon_request(&acts[0]).unwrap();
    assert_eq!(cmd, "start");
    assert_eq!(args, obj(vec![("name", s("bar"))]));
    assert_eq!(addon_request(&acts[2]).unwrap().0, "reload");
    assert!(addon_request(&MenuAction::Rescan).is_none());
    assert_eq!(autostart_label(true), "Autostart: On");
    assert_eq!(autostart_label(false), "Autostart: Off");
    assert_eq!(is_backend_startup_enabled(), Ok(false));
    assert_eq!(set_backend_startup_enabled(true).unwrap_err(), "Run at startup toggle is only supported on Windows");
}

#[test]
fn tray_clicks() {
    let mut st = ClickState { pending_right_click: None, double_click_cooldown: None };
    assert!(matches!(on_tray_input(&mut st, TrayInput::RightClickUp, 1000), TrayOutput::Nothing));
    assert_eq!(wake_deadline(&st), Some(1400));
    assert!(matches!(on_tray_input(&mut st, TrayInput::DoubleRightClick, 1100), TrayOutput::ShowBackendMenu));
    assert_eq!(wake_deadline(&st), None);
    // The second click-up of the double click is swallowed.
    assert!(matches!(on_tray_input(&mut st, TrayInput::RightClickUp, 1200), TrayOutput::Nothing));
    assert_eq!(st.pending_right_click, None);
    assert_eq!(st.double_click_cooldown, None);
    assert!(matches!(on_tray_input(&mut st, TrayInput::RightClickUp, 5000), TrayOutput::Nothing));
    assert!(matches!(on_tray_input(&mut st, TrayInput::DebounceElapsed, 5400), TrayOutput::ShowAddonMenu));
    assert!(matches!(on_tray_input(&mut st, TrayInput::DebounceElapsed, 5500), TrayOutput::Nothing));
    assert!(matches!(on_tray_input(&mut st, TrayInput::DoubleLeftClick, 6000), TrayOutput::OpenUi));
    let late = ClickState { pending_right_click: Some(u64::MAX - 10), double_click_cooldown: None };
    assert_eq!(wake_deadline(&late), Some(u64::MAX));
}

#[test]
fn home_directories() {
    assert_eq!(user_home_dir(Some("C:\\Users\\me".to_string()), None, None), Some("C:\\Users\\me".to_string()));
    assert_eq!(
        user_home_dir(None, Some("C:".to_string()), Some("\\Users\\me".to_string())),
        Some("C:\\Users\\me".to_string())
    );
    assert_eq!(user_home_dir(None, Some("C:".to_string()), None), None);
}

#[test]
fn daemon_state() {
    let mut p = MediaPoller { started: false };
    let first = refresh_media_session_cache_if_due(&mut p);
    assert!(first.start_poller && first.query_now);
    let second = refresh_media_session_cache_if_due(&mut p);
    assert!(!second.start_poller && second.query_now);
    assert_eq!(media_cache_value(Json::Null), obj(vec![("playing", Json::Bool(false))]));
    let playing = obj(vec![("title", s("Song")), ("n", Json::Number(JsonNumber::Unsigned(1)))]);
    assert_eq!(media_cache_value(playing.duplicate()), playing);
    let mut w = WakeSignal { signaled: false };
    wake_updaters(&mut w);
    assert!(w.signaled);
    begin_interruptible_sleep(&mut w);
    assert!(!w.signaled);
}

#[test]
fn shell_pages_for_tabs() {
    let tabs = vec![
        CustomTabPage { id: "editor".to_string(), title: "Editor".to_string(), path: "C:\\Users\\me\\a\\editor.html".to_string() },
        CustomTabPage { id: "x".to_string(), title: "X".to_string(), path: "D:\\x.html".to_string() },
    ];
    let pages = shell_tab_urls(&tabs, "C:\\Users\\me", "{}");
    assert_eq!(pages.len(), 1);
    assert_eq!(pages[0].id, "editor");
    assert_eq!(pages[0].path, "sentinel://localhost/a/editor.html?sentinelData=%7B%7D");
}

#[test]
fn wallpaper_addon_detection() {
    assert!(is_wallpaper_addon("WALLPAPER", "x", "y"));
    assert!(is_wallpaper_addon("pkg", "veil-Wallpaper-engine", "y"));
    assert!(is_wallpaper_addon("pkg", "id", "My Wallpapers"));
    assert!(!is_wallpaper_addon("pkg", "bar", "Bar"));
}

#[test]
fn lowered_names_are_tested() {
    assert!(veil_core::shell::wallpaper_named("WallPaper", "x", "y"));
    assert!(veil_core::shell::wallpaper_named("pkg", "my-wallpaper", "y"));
    assert!(!veil_core::shell::wallpaper_named("pkg", "My-Wallpaper", "y"));
    assert!(veil_core::cli::lowered_type2_ok(Type1::Bar, "widget"));
    assert!(!veil_core::cli::lowered_type2_ok(Type1::Bar, "Widget"));
    assert!(veil_core::cli::lowered_type2_ok(Type1::Theme, "select"));
    assert!(!veil_core::cli::lowered_type2_ok(Type1::Wallpaper, "widget"));
}

#[test]
fn shell_requests_name_files_under_home() {
    assert_eq!(
        sentinel_request_path("sentinel://localhost/Addons/My%20Wall/index.html?sentinelData=%7B%7D"),
        "Addons\\My Wall\\index.html"
    );
    assert_eq!(sentinel_request_path("http://sentinel.localhost//a/b.css"), "a\\b.css");
    assert_eq!(sentinel_request_path("https://sentinel.localhost/x%2Fy"), "x\\y");
    assert_eq!(sentinel_request_path("sentinel://plain"), "plain");
    assert_eq!(sentinel_request_path("sentinel://localhost/bad%FF.txt"), "bad%FF.txt");
    assert_eq!(sentinel_request_path("/other/scheme?q"), "other\\scheme");
    assert_eq!(request_clean_path("sentinel://localhost///a%20b?x?y"), "a%20b");
    assert_eq!(request_file_path("a%2Fb", None), "a%2Fb");
    assert_eq!(request_file_path("ignored", Some("c/d".to_string())), "c\\d");
}

#[test]
fn starting_an_addon_decides_by_its_state() {
    match veil_core::addon::start_step("bar", "/x/bar.exe", true, true) {
        veil_core::addon::StartStep::Answer(a) => {
            assert_eq!(a.unwrap(), obj(vec![("status", s("already_running")), ("addon", s("bar"))]))
        },
        _ => panic!("expected an answer"),
    }
    match veil_core::addon::start_step("bar", "/x/bar.exe", false, false) {
        veil_core::addon::StartStep::Answer(a) => assert_eq!(a.unwrap_err(), "Addon executable not found: /x/bar.exe"),
        _ => panic!("expected an answer"),
    }
    assert!(matches!(veil_core::addon::start_step("bar", "/x/bar.exe", false, true), veil_core::addon::StartStep::Spawn));
    assert_eq!(
        veil_core::addon::start_outcome("bar", None).unwrap(),
        obj(vec![("status", s("started")), ("addon", s("bar"))])
    );
    assert_eq!(veil_core::addon::start_outcome("bar", Some("denied".to_string())).unwrap_err(), "Failed to start addon: denied");
}
