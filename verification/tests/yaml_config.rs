use veil_core::yaml::{
    apply_asset_assignment_to_monitor, ensure_node_path, entry_value, find_key, get_assigned_asset_for_monitor,
    get_node, map_insert, read_asset_selector_values, replace_node, set_yaml_value, text_value, untag,
    yaml_bool, yaml_i64, yaml_string, yaml_string_list, yaml_string_map, Yaml,
};

fn ys(s: &str) -> Yaml {
    Yaml::Str(s.to_string())
}

fn yseq(items: &[&str]) -> Yaml {
    Yaml::Sequence(items.iter().map(|s| ys(s)).collect())
}

fn ymap(entries: Vec<(&str, Yaml)>) -> Yaml {
    Yaml::Mapping(entries.into_iter().map(|(k, v)| (ys(k), v)).collect())
}

fn path(parts: &[&str]) -> Vec<String> {
    parts.iter().map(|s| s.to_string()).collect()
}

fn sample() -> Yaml {
    ymap(vec![
        (
            "wallpaper",
            ymap(vec![
                ("wallpaper_id", ys("forest")),
                ("assignments", ymap(vec![("DISPLAY1", ys("sea")), ("*", ys("sky"))])),
                ("monitor_index", yseq(&["DISPLAY1"])),
            ]),
        ),
        ("tags", Yaml::Sequence(vec![ys("a"), Yaml::Bool(true), ys("b")])),
        ("name", ys("solo")),
        ("labels", Yaml::Mapping(vec![(ys("k"), ys("v")), (ys("n"), Yaml::Number("3".to_string())), (Yaml::Null, ys("x"))])),
    ])
}

#[test]
fn nodes_are_found_by_key_path() {
    let root = sample();
    assert_eq!(get_node(&root, &path(&["wallpaper", "wallpaper_id"])), Some(&ys("forest")));
    assert_eq!(get_node(&root, &path(&[])), Some(&root));
    assert_eq!(get_node(&root, &path(&["wallpaper", "missing"])), None);
    assert_eq!(get_node(&root, &path(&["name", "deeper"])), None);
}

#[test]
fn values_are_set_along_dotted_paths() {
    let mut root = sample();
    set_yaml_value(&mut root, "wallpaper.mode", ys("fit"));
    assert_eq!(get_node(&root, &path(&["wallpaper", "mode"])), Some(&ys("fit")));
    assert_eq!(get_node(&root, &path(&["name"])), Some(&ys("solo")));
    set_yaml_value(&mut root, "new.branch.leaf", Yaml::Bool(false));
    assert_eq!(get_node(&root, &path(&["new", "branch", "leaf"])), Some(&Yaml::Bool(false)));
    set_yaml_value(&mut root, "name.inner", ys("x"));
    assert_eq!(get_node(&root, &path(&["name"])), Some(&ys("solo")));
    set_yaml_value(&mut root, "name.inner.leaf", ys("x"));
    assert_eq!(get_node(&root, &path(&["name", "inner", "leaf"])), Some(&ys("x")));
    let mut scalar = ys("plain");
    set_yaml_value(&mut scalar, "key", ys("v"));
    assert_eq!(scalar, ys("plain"));
}

#[test]
fn node_paths_are_created_when_missing() {
    let mut root = ymap(vec![("a", ys("keep"))]);
    ensure_node_path(&mut root, &path(&["a"]), ys("default"));
    assert_eq!(get_node(&root, &path(&["a"])), Some(&ys("keep")));
    ensure_node_path(&mut root, &path(&["b", "c"]), Yaml::Sequence(vec![]));
    assert_eq!(get_node(&root, &path(&["b", "c"])), Some(&Yaml::Sequence(vec![])));
    ensure_node_path(&mut root, &path(&["a", "d"]), ys("x"));
    assert_eq!(get_node(&root, &path(&["a", "d"])), Some(&ys("x")));
}

#[test]
fn nodes_are_replaced_only_where_the_path_leads() {
    let mut root = sample();
    replace_node(&mut root, &path(&["wallpaper", "wallpaper_id"]), ys("desert"));
    assert_eq!(get_node(&root, &path(&["wallpaper", "wallpaper_id"])), Some(&ys("desert")));
    let before = root.duplicate();
    replace_node(&mut root, &path(&["nowhere", "x"]), ys("y"));
    assert_eq!(root, before);
    replace_node(&mut root, &path(&[]), ys("whole"));
    assert_eq!(root, ys("whole"));
}

#[test]
fn string_lists_and_maps_at_dotted_paths() {
    let root = sample();
    assert_eq!(yaml_string_list(&root, "tags"), path(&["a", "b"]));
    assert_eq!(yaml_string_list(&root, " name "), path(&["solo"]));
    assert_eq!(yaml_string_list(&root, "wallpaper..monitor_index"), path(&["DISPLAY1"]));
    assert!(yaml_string_list(&root, "labels").is_empty());
    assert!(yaml_string_list(&root, "missing").is_empty());
    assert_eq!(yaml_string_map(&root, "labels"), vec![("k".to_string(), "v".to_string())]);
    assert!(yaml_string_map(&root, "tags").is_empty());
}

#[test]
fn asset_selector_values_are_read() {
    let root = sample();
    let selectors = vec![path(&["wallpaper", "wallpaper_id"]), path(&["tags"]), path(&["name"]), path(&["gone"])];
    assert_eq!(
        read_asset_selector_values(&root, &selectors),
        vec![
            ("wallpaper.wallpaper_id".to_string(), "forest".to_string()),
            ("name".to_string(), "solo".to_string()),
        ]
    );
}

#[test]
fn assigned_asset_falls_back_to_star_then_wallpaper_id() {
    let root = sample();
    assert_eq!(get_assigned_asset_for_monitor(&root, "DISPLAY1"), Some("sea".to_string()));
    assert_eq!(get_assigned_asset_for_monitor(&root, "DISPLAY2"), Some("sky".to_string()));
    let plain = ymap(vec![("wallpaper", ymap(vec![("wallpaper_id", ys("forest"))]))]);
    assert_eq!(get_assigned_asset_for_monitor(&plain, "DISPLAY2"), Some("forest".to_string()));
    assert_eq!(get_assigned_asset_for_monitor(&ymap(vec![]), "DISPLAY2"), None);
}

#[test]
fn assigning_an_asset_to_a_monitor() {
    let mut root = sample();
    apply_asset_assignment_to_monitor(&mut root, "DISPLAY2", "lake");
    assert_eq!(get_node(&root, &path(&["wallpaper", "assignments", "DISPLAY2"])), Some(&ys("lake")));
    assert_eq!(get_node(&root, &path(&["wallpaper", "wallpaper_id"])), Some(&ys("lake")));
    assert_eq!(get_node(&root, &path(&["wallpaper", "monitor_index"])), Some(&yseq(&["DISPLAY1", "DISPLAY2"])));
    apply_asset_assignment_to_monitor(&mut root, "DISPLAY1", "hill");
    assert_eq!(get_node(&root, &path(&["wallpaper", "assignments", "DISPLAY1"])), Some(&ys("hill")));
    assert_eq!(get_node(&root, &path(&["wallpaper", "monitor_index"])), Some(&yseq(&["DISPLAY1", "DISPLAY2"])));
    assert_eq!(get_assigned_asset_for_monitor(&root, "DISPLAY1"), Some("hill".to_string()));

    let mut fresh = ymap(vec![]);
    apply_asset_assignment_to_monitor(&mut fresh, "M", "a1");
    assert_eq!(get_node(&fresh, &path(&["wallpaper", "assignments", "M"])), Some(&ys("a1")));
    assert_eq!(get_node(&fresh, &path(&["wallpaper", "monitor_index"])), Some(&yseq(&["M"])));
    assert_eq!(get_node(&fresh, &path(&["wallpaper", "wallpaper_id"])), None);
}

#[test]
fn mapping_helpers_and_tags() {
    let tagged = Yaml::Tagged("!a".to_string(), Box::new(Yaml::Tagged("!b".to_string(), Box::new(ys("deep")))));
    assert_eq!(untag(&tagged), &ys("deep"));
    assert_eq!(text_value(&tagged), Some(&"deep".to_string()));
    assert_eq!(text_value(&Yaml::Bool(true)), None);
    let mut ms = vec![(ys("a"), ys("1")), (ys("b"), ys("2"))];
    assert_eq!(find_key(&ms, "b"), Some(1));
    assert_eq!(find_key(&ms, "c"), None);
    map_insert(&mut ms, "a", ys("9"));
    map_insert(&mut ms, "c", ys("3"));
    assert_eq!(ms, vec![(ys("a"), ys("9")), (ys("b"), ys("2")), (ys("c"), ys("3"))]);
    assert_eq!(entry_value(&ms, "c"), Some(ys("3")));
    assert_eq!(entry_value(&ms, "z"), None);
}

#[test]
fn typed_reads_at_dotted_paths() {
    let root = ymap(vec![(
        "settings",
        ymap(vec![
            ("level", ys("debug")),
            ("on", Yaml::Tagged("!b".to_string(), Box::new(Yaml::Bool(true)))),
            ("ms", Yaml::Number("-12".to_string())),
            ("big", Yaml::Number("18446744073709551615".to_string())),
            ("ratio", Yaml::Number("1.5".to_string())),
            ("text_ms", ys("12")),
        ]),
    )]);
    assert_eq!(yaml_string(&root, "settings.level"), Some("debug".to_string()));
    assert_eq!(yaml_string(&root, "settings.on"), None);
    assert_eq!(yaml_bool(&root, "settings.on"), Some(true));
    assert_eq!(yaml_bool(&root, "settings.level"), None);
    assert_eq!(yaml_i64(&root, "settings.ms"), Some(-12));
    assert_eq!(yaml_i64(&root, "settings.big"), None);
    assert_eq!(yaml_i64(&root, "settings.ratio"), None);
    assert_eq!(yaml_i64(&root, "settings.text_ms"), None);
    assert_eq!(yaml_i64(&root, "settings.missing"), None);
}
