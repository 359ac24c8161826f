use veil_core::wallpaper::{
    build_monitor_assignments, monitor_targets_supplied, parse_wallpaper_profile_section, parse_wallpaper_profiles,
    primary_profile_index, profile_priority, resolve_assignment_targets, resolve_profile_monitor_indexes,
    sort_monitors_for_wallpaper_indexes, sort_profiles_by_section, upsert_wallpaper_profile_for_index,
    wallpaper_section_order_key, assign_wallpaper_to_indexes, set_wallpaper_property, wallpaper_shell_settings,
    wallpaper_shell_summary, WallpaperProfileEntry, WallpaperShellMonitor,
};
use veil_core::yaml::Yaml;

fn mon(id: &str, x: i32, y: i32, h: i32, primary: bool) -> WallpaperShellMonitor {
    WallpaperShellMonitor { id: id.to_string(), x, y, width: 1920, height: h, primary }
}

fn profile(section: &str, enabled: bool, keys: &[&str], wid: &str) -> WallpaperProfileEntry {
    WallpaperProfileEntry {
        section: section.to_string(),
        enabled,
        monitor_index: keys.iter().map(|k| k.to_string()).collect(),
        wallpaper_id: wid.to_string(),
        mode: None,
        z_index: None,
    }
}

fn strings(v: &[&str]) -> Vec<String> {
    v.iter().map(|s| s.to_string()).collect()
}

fn ys(s: &str) -> Yaml {
    Yaml::Str(s.to_string())
}

fn yseq(items: &[&str]) -> Yaml {
    Yaml::Sequence(items.iter().map(|s| ys(s)).collect())
}

fn pairs(entries: Vec<(&str, Yaml)>) -> Vec<(Yaml, Yaml)> {
    entries.into_iter().map(|(k, v)| (ys(k), v)).collect()
}

fn ymap(entries: Vec<(&str, Yaml)>) -> Yaml {
    Yaml::Mapping(pairs(entries))
}

fn entry<'a>(m: &'a Yaml, key: &str) -> &'a Yaml {
    match m {
        Yaml::Mapping(ms) => &ms.iter().find(|(k, _)| *k == ys(key)).expect("key present").1,
        _ => panic!("not a mapping"),
    }
}

#[test]
fn monitors_order_top_row_first_then_left_to_right() {
    let mut ms = vec![
        mon("A", 0, 0, 1080, true),
        mon("B", 1920, 10, 1080, false),
        mon("C", 0, 1080, 1080, false),
        mon("D", -1920, 1200, 1080, false),
    ];
    sort_monitors_for_wallpaper_indexes(&mut ms);
    let ids: Vec<String> = ms.iter().map(|m| m.id.clone()).collect();
    assert_eq!(ids, strings(&["D", "C", "A", "B"]));
}

#[test]
fn single_monitor_order_is_unchanged() {
    let mut ms = vec![mon("only", 5, 5, 100, false)];
    sort_monitors_for_wallpaper_indexes(&mut ms);
    assert_eq!(ms[0].id, "only");
}

#[test]
fn profile_priorities() {
    assert_eq!(profile_priority(&profile("wallpaper", true, &["P"], "w")), 0);
    assert_eq!(profile_priority(&profile("wallpaper", true, &["1", "*"], "w")), 2);
    assert_eq!(profile_priority(&profile("wallpaper", true, &["0"], "w")), 1);
}

#[test]
fn profile_keys_select_monitors() {
    let ms = vec![mon("A", 0, 0, 1080, false), mon("B", 1920, 0, 1080, true), mon("C", 3840, 0, 1080, false)];
    let none = vec![false, false, false];
    assert_eq!(resolve_profile_monitor_indexes(&ms, &strings(&["p"]), &none), vec![1]);
    assert_eq!(resolve_profile_monitor_indexes(&ms, &strings(&["2", "0", "2", "9", "x"]), &none), vec![2, 0]);
    assert_eq!(resolve_profile_monitor_indexes(&ms, &strings(&["*"]), &vec![true, false, false]), vec![1, 2]);
    assert_eq!(resolve_profile_monitor_indexes(&ms, &strings(&["0"]), &vec![true, false, false]), Vec::<usize>::new());
}

#[test]
fn assignments_follow_priorities() {
    let ms = vec![mon("A", 0, 0, 1080, false), mon("B", 1920, 0, 1080, true), mon("C", 3840, 0, 1080, false)];
    let ps = vec![
        profile("wallpaper", true, &["*"], "all"),
        profile("wallpaper1", true, &["0"], "first"),
        profile("wallpaper2", true, &["p"], "main"),
    ];
    let mut got = build_monitor_assignments(&ms, &ps);
    got.sort();
    assert_eq!(
        got,
        vec![
            ("*".to_string(), "all".to_string()),
            ("A".to_string(), "first".to_string()),
            ("B".to_string(), "main".to_string()),
            ("C".to_string(), "all".to_string()),
        ]
    );
}

#[test]
fn section_order_keys() {
    assert_eq!(wallpaper_section_order_key("wallpaper"), (0, 0, "wallpaper".to_string()));
    assert_eq!(wallpaper_section_order_key("wallpaper12"), (1, 12, "wallpaper12".to_string()));
    assert_eq!(wallpaper_section_order_key("wallpaperX"), (2, u32::MAX, "wallpaperX".to_string()));
    let sorted = sort_profiles_by_section(vec![
        profile("wallpaper10", true, &["*"], "a"),
        profile("zeta", true, &["*"], "b"),
        profile("wallpaper2", true, &["*"], "c"),
        profile("wallpaper", true, &["*"], "d"),
        profile("alpha", true, &["*"], "e"),
    ]);
    let order: Vec<String> = sorted.iter().map(|p| p.section.clone()).collect();
    assert_eq!(order, strings(&["wallpaper", "wallpaper2", "wallpaper10", "alpha", "zeta"]));
}

#[test]
fn profile_sections_parse() {
    let sec = pairs(vec![
        ("wallpaper_id", ys("  forest  ")),
        ("monitor_index", Yaml::Sequence(vec![ys("1"), Yaml::Number("5".to_string())])),
        ("mode", ys("Fill")),
        ("z_index", ys("Desktop")),
    ]);
    let p = parse_wallpaper_profile_section("wallpaper3", &sec).unwrap();
    assert_eq!(p.section, "wallpaper3");
    assert_eq!(p.wallpaper_id, "forest");
    assert!(p.enabled);
    assert_eq!(p.monitor_index, strings(&["1"]));
    assert_eq!(p.mode, Some("fill".to_string()));
    assert_eq!(p.z_index, Some("desktop".to_string()));
    assert!(parse_wallpaper_profile_section("wallpaper", &pairs(vec![("wallpaper_id", ys("   "))])).is_none());
    assert!(parse_wallpaper_profile_section("wallpaper", &pairs(vec![("mode", ys("fill"))])).is_none());
    assert!(parse_wallpaper_profile_section("wallpaper", &pairs(vec![("wallpaper_id", Yaml::Bool(true))])).is_none());
    let q = parse_wallpaper_profile_section(
        "wallpaper",
        &pairs(vec![("wallpaper_id", ys("x")), ("enabled", Yaml::Bool(false)), ("monitor_index", Yaml::Null)]),
    )
    .unwrap();
    assert!(!q.enabled);
    assert_eq!(q.monitor_index, strings(&["*"]));
    assert_eq!(q.mode, None);
    let t = parse_wallpaper_profile_section("w", &pairs(vec![("wallpaper_id", ys("x")), ("monitor_index", ys("2"))])).unwrap();
    assert_eq!(t.monitor_index, strings(&["2"]));
    let e = parse_wallpaper_profile_section("w", &pairs(vec![("wallpaper_id", ys("x")), ("monitor_index", yseq(&[]))])).unwrap();
    assert_eq!(e.monitor_index, strings(&["*"]));
    let tagged = parse_wallpaper_profile_section(
        "w",
        &pairs(vec![("wallpaper_id", Yaml::Tagged("!id".to_string(), Box::new(ys("t")))), ("enabled", ys("no"))]),
    )
    .unwrap();
    assert_eq!(tagged.wallpaper_id, "t");
    assert!(tagged.enabled);
}

#[test]
fn profiles_from_both_levels_are_sorted() {
    let root = ymap(vec![
        ("wallpaper2", ymap(vec![("wallpaper_id", ys("b"))])),
        ("other", ymap(vec![("wallpaper_id", ys("z"))])),
        ("wallpaper_flat", ys("not a section")),
        (
            "wallpapers",
            ymap(vec![
                ("wallpaper", ymap(vec![("wallpaper_id", ys("a"))])),
                ("wallpaper9", ymap(vec![])),
            ]),
        ),
    ]);
    let ps = parse_wallpaper_profiles(&root);
    let ids: Vec<String> = ps.iter().map(|p| p.wallpaper_id.clone()).collect();
    assert_eq!(ids, strings(&["a", "b"]));
    assert!(parse_wallpaper_profiles(&yseq(&["wallpaper"])).is_empty());
}

#[test]
fn upsert_updates_matching_section_or_inserts() {
    let mut ws = pairs(vec![
        ("wallpaper", ymap(vec![("monitor_index", yseq(&["0", "1"])), ("mode", ys("fit"))])),
        ("wallpaper4", ymap(vec![("monitor_index", ys("1")), ("enabled", Yaml::Bool(false))])),
        ("wallpaper2", ymap(vec![("monitor_index", yseq(&["2"])), ("mode", ys("center"))])),
    ]);
    upsert_wallpaper_profile_for_index(&mut ws, "1", "forest");
    assert_eq!(ws.len(), 3);
    assert_eq!(ws[0].1, ymap(vec![("monitor_index", yseq(&["0", "1"])), ("mode", ys("fit"))]));
    assert_eq!(
        ws[1].1,
        ymap(vec![
            ("monitor_index", ys("1")),
            ("enabled", Yaml::Bool(true)),
            ("wallpaper_id", ys("forest")),
            ("mode", ys("fill")),
            ("z_index", ys("desktop")),
        ])
    );
    upsert_wallpaper_profile_for_index(&mut ws, "2", "sea");
    assert_eq!(
        ws[2].1,
        ymap(vec![
            ("monitor_index", yseq(&["2"])),
            ("mode", ys("center")),
            ("wallpaper_id", ys("sea")),
            ("enabled", Yaml::Bool(true)),
            ("z_index", ys("desktop")),
        ])
    );
    upsert_wallpaper_profile_for_index(&mut ws, "7", "sky");
    assert_eq!(ws.len(), 4);
    assert_eq!(ws[3].0, ys("wallpaper5"));
    assert_eq!(
        ws[3].1,
        ymap(vec![
            ("enabled", Yaml::Bool(true)),
            ("monitor_index", yseq(&["7"])),
            ("wallpaper_id", ys("sky")),
            ("mode", ys("fill")),
            ("z_index", ys("desktop")),
        ])
    );
    let mut empty: Vec<(Yaml, Yaml)> = vec![];
    upsert_wallpaper_profile_for_index(&mut empty, "0", "w");
    assert_eq!(empty[0].0, ys("wallpaper0"));
}

#[test]
fn assigning_a_wallpaper_to_indexes() {
    let mut root = ymap(vec![("version", ys("1"))]);
    assign_wallpaper_to_indexes(&mut root, &strings(&["0", "1"]), "w");
    assert_eq!(entry(&root, "version"), &ys("1"));
    let ws = entry(&root, "wallpapers");
    assert_eq!(entry(ws, "wallpaper0"), &ymap(vec![
        ("enabled", Yaml::Bool(true)),
        ("monitor_index", yseq(&["0"])),
        ("wallpaper_id", ys("w")),
        ("mode", ys("fill")),
        ("z_index", ys("desktop")),
    ]));
    assert_eq!(entry(entry(ws, "wallpaper1"), "monitor_index"), &yseq(&["1"]));
    assign_wallpaper_to_indexes(&mut root, &strings(&["1"]), "v");
    let ws = entry(&root, "wallpapers");
    assert_eq!(entry(entry(ws, "wallpaper1"), "wallpaper_id"), &ys("v"));
    assert_eq!(entry(entry(ws, "wallpaper0"), "wallpaper_id"), &ys("w"));
    let mut scalar = ys("x");
    assign_wallpaper_to_indexes(&mut scalar, &strings(&["3"]), "q");
    assert_eq!(entry(entry(entry(&scalar, "wallpapers"), "wallpaper0"), "wallpaper_id"), &ys("q"));
}

#[test]
fn setting_a_wallpaper_property() {
    let mut root = ymap(vec![(
        "wallpapers",
        ymap(vec![
            ("wallpaper", ymap(vec![("monitor_index", yseq(&["0", "1"])), ("mode", ys("fill"))])),
            ("wallpaper1", ymap(vec![("monitor_index", yseq(&["2"])), ("mode", ys("fill"))])),
            ("note", ys("text")),
        ]),
    )]);
    let before = root.duplicate();
    assert_eq!(
        set_wallpaper_property(&mut root, &strings(&["1"]), "", ys("fit")).unwrap_err(),
        "Missing property or monitor indexes"
    );
    assert_eq!(
        set_wallpaper_property(&mut root, &vec![], "mode", ys("fit")).unwrap_err(),
        "Missing property or monitor indexes"
    );
    assert_eq!(root, before);
    assert!(set_wallpaper_property(&mut root, &strings(&["1", "9"]), "mode", ys("fit")).is_ok());
    let ws = entry(&root, "wallpapers");
    assert_eq!(entry(entry(ws, "wallpaper"), "mode"), &ys("fit"));
    assert_eq!(entry(entry(ws, "wallpaper1"), "mode"), &ys("fill"));
    assert_eq!(entry(ws, "note"), &ys("text"));
    assert!(set_wallpaper_property(&mut root, &strings(&["2"]), "z_index", ys("bottom")).is_ok());
    assert_eq!(entry(entry(entry(&root, "wallpapers"), "wallpaper1"), "z_index"), &ys("bottom"));
}

#[test]
fn assignment_targets_resolve() {
    let ms = vec![mon("A", 0, 0, 1080, false), mon("B", 1920, 0, 1080, true)];
    assert_eq!(monitor_targets_supplied(&vec![], &vec![]).unwrap_err(), "No monitor IDs supplied");
    assert!(monitor_targets_supplied(&strings(&["A"]), &vec![]).is_ok());
    assert_eq!(resolve_assignment_targets(&vec![], &strings(&["2", " ", "10", "2"]), &ms).unwrap(), strings(&["10", "2"]));
    assert_eq!(resolve_assignment_targets(&strings(&["B", "Z", "A"]), &vec![], &ms).unwrap(), strings(&["0", "1"]));
    assert_eq!(
        resolve_assignment_targets(&strings(&["Z"]), &vec![], &ms).unwrap_err(),
        "No monitor indexes resolved from monitor IDs"
    );
}

#[test]
fn primary_profile_choice() {
    let ps = vec![profile("wallpaper", false, &["*"], "a"), profile("wallpaper1", true, &["*"], "b")];
    assert_eq!(primary_profile_index(&ps), Some(1));
    let off = vec![profile("wallpaper", false, &["*"], "a")];
    assert_eq!(primary_profile_index(&off), Some(0));
    assert_eq!(primary_profile_index(&vec![]), None);
}

#[test]
fn shell_summary_from_profiles() {
    let root = ymap(vec![
        (
            "wallpapers",
            ymap(vec![
                ("wallpaper", ymap(vec![("wallpaper_id", ys("all")), ("monitor_index", yseq(&["*"])), ("enabled", Yaml::Bool(false))])),
                ("wallpaper1", ymap(vec![("wallpaper_id", ys("main")), ("monitor_index", yseq(&["p"])), ("mode", ys("Fit"))])),
            ]),
        ),
        ("wallpaper", ymap(vec![("mode", ys("stretch")), ("z_index", ys("bottom")), ("assignments", ymap(vec![("X", ys("x"))]))])),
    ]);
    let monitors = vec![mon("B", 1920, 0, 1080, true), mon("A", 0, 0, 1080, false)];
    let summary = wallpaper_shell_summary(&root, monitors);
    let ids: Vec<String> = summary.monitors.iter().map(|m| m.id.clone()).collect();
    assert_eq!(ids, strings(&["A", "B"]));
    assert_eq!(summary.enabled, Some(true));
    assert_eq!(summary.wallpaper_id, Some("main".to_string()));
    assert_eq!(summary.mode, Some("fit".to_string()));
    assert_eq!(summary.z_index, Some("bottom".to_string()));
    assert_eq!(summary.monitor_index, strings(&["p"]));
    assert_eq!(summary.assignments, vec![("B".to_string(), "main".to_string())]);
    let shown: Vec<(String, bool, String)> =
        summary.profiles.iter().map(|p| (p.monitor_index.clone(), p.enabled, p.wallpaper_id.clone())).collect();
    assert_eq!(
        shown,
        vec![("*".to_string(), false, "all".to_string()), ("p".to_string(), true, "main".to_string())]
    );
}

#[test]
fn shell_summary_falls_back_to_the_wallpaper_section() {
    let root = ymap(vec![(
        "wallpaper",
        ymap(vec![
            ("wallpaper_id", Yaml::Number("7".to_string())),
            ("mode", ys("fill")),
            ("monitor_index", yseq(&["0"])),
            ("assignments", ymap(vec![("A", ys("w1")), ("n", Yaml::Number("5".to_string()))])),
        ]),
    )]);
    let summary = wallpaper_shell_summary(&root, vec![mon("A", 0, 0, 1080, true)]);
    assert_eq!(summary.enabled, Some(false));
    assert_eq!(summary.wallpaper_id, None);
    assert_eq!(summary.mode, Some("fill".to_string()));
    assert_eq!(summary.z_index, None);
    assert_eq!(summary.monitor_index, strings(&["0"]));
    assert_eq!(summary.assignments, vec![("A".to_string(), "w1".to_string())]);
    assert!(summary.profiles.is_empty());

    let own_section = ymap(vec![(
        "wallpaper",
        ymap(vec![("wallpaper_id", ys("w0")), ("monitor_index", yseq(&["0"]))]),
    )]);
    let s1 = wallpaper_shell_summary(&own_section, vec![mon("A", 0, 0, 1080, true)]);
    assert_eq!(s1.enabled, Some(true));
    assert_eq!(s1.wallpaper_id, Some("w0".to_string()));
    assert_eq!(s1.assignments, vec![("A".to_string(), "w0".to_string())]);

    let disabled = ymap(vec![(
        "wallpapers",
        ymap(vec![("wallpaper2", ymap(vec![("wallpaper_id", ys("off")), ("enabled", Yaml::Bool(false))]))]),
    )]);
    let s2 = wallpaper_shell_summary(&disabled, vec![]);
    assert_eq!(s2.enabled, Some(false));
    assert_eq!(s2.wallpaper_id, Some("off".to_string()));
    assert_eq!(s2.monitor_index, strings(&["*"]));
    assert!(s2.assignments.is_empty());
}

#[test]
fn shell_settings_are_read_from_their_places() {
    let root = ymap(vec![(
        "settings",
        ymap(vec![
            ("development", ymap(vec![("log_level", ys("info")), ("debug", Yaml::Bool(true))])),
            ("runtime", ymap(vec![("tick_sleep_ms", Yaml::Number("16".to_string()))])),
            (
                "performance",
                ymap(vec![
                    ("pausing", ymap(vec![("focus", ys("pause")), ("check_interval_ms", Yaml::Number("500".to_string()))])),
                    ("audio", ymap(vec![("enabled", Yaml::Bool(false)), ("quantize_decimals", Yaml::Number("2".to_string()))])),
                ]),
            ),
            ("diagnostics", ymap(vec![("log_watcher_reloads", Yaml::Bool(true))])),
        ]),
    )]);
    let st = wallpaper_shell_settings(&root);
    assert_eq!(st.log_level, Some("info".to_string()));
    assert_eq!(st.debug, Some(true));
    assert_eq!(st.update_check, None);
    assert_eq!(st.tick_sleep_ms, Some(16));
    assert_eq!(st.pause_focus, Some("pause".to_string()));
    assert_eq!(st.pause_check_interval_ms, Some(500));
    assert_eq!(st.audio_enabled, Some(false));
    assert_eq!(st.audio_quantize_decimals, Some(2));
    assert_eq!(st.log_watcher_reloads, Some(true));
    assert_eq!(st.watcher_enabled, None);
}
