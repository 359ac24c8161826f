use veil_core::json::{Json, JsonNumber};
use veil_core::sentinel::{
    addon_meta_from_json, asset_categories_for, asset_option_from_manifest, category_dir_matches,
    collect_asset_selector_paths, cycle_preview_index, merge_assets, pick_preview_index, preview_source,
    set_editable_value, shell_asset, sort_addon_metas, AddonMeta, AssetOption, PreviewSource, SchemaField,
    SchemaSection,
};

fn s(t: &str) -> Json {
    Json::Str(t.to_string())
}

fn obj(members: Vec<(&str, Json)>) -> Json {
    Json::Object(members.into_iter().map(|(k, v)| (k.to_string(), v)).collect())
}

fn arr(items: Vec<Json>) -> Json {
    Json::Array(items)
}

fn member<'a>(j: &'a Json, key: &str) -> &'a Json {
    match j {
        Json::Object(ms) => &ms.iter().find(|(k, _)| k == key).expect("member present").1,
        _ => panic!("not an object"),
    }
}

fn strings(v: &[&str]) -> Vec<String> {
    v.iter().map(|t| t.to_string()).collect()
}

fn meta(name: &str, accepts: bool, package: &str, categories: &[&str]) -> AddonMeta {
    addon_meta_from_json(
        &obj(vec![
            ("name", s(name)),
            ("package", s(package)),
            ("accepts_assets", Json::Bool(accepts)),
            ("asset_categories", arr(categories.iter().map(|c| s(c)).collect())),
        ]),
        Some("folder"),
        "root/folder",
    )
}

fn asset(id: &str, name: &str) -> AssetOption {
    asset_option_from_manifest(&obj(vec![("id", s(id)), ("name", s(name))]), None, "m", vec![])
}

#[test]
fn addon_metas_read_from_addon_json() {
    let m = addon_meta_from_json(
        &obj(vec![
            ("id", s("wallpaper_engine")),
            ("name", s("Wallpaper Engine")),
            ("assets", obj(vec![("accepts", Json::Bool(true)), ("categories", arr(vec![s("wallpaper"), Json::Null, s("scenes")]))])),
        ]),
        Some("dir_name"),
        "C:/addons/dir_name",
    );
    assert_eq!(m.id, "wallpaper_engine");
    assert_eq!(m.name, "Wallpaper Engine");
    assert_eq!(m.package, "wallpaper engine");
    assert_eq!(m.addon_root, "C:/addons/dir_name");
    assert!(m.accepts_assets);
    assert_eq!(m.asset_categories, strings(&["wallpaper", "scenes"]));
    assert!(m.config_path.ends_with("config.yaml"));
    assert!(m.schema_path.ends_with("schema.yaml"));

    let bare = addon_meta_from_json(&Json::Null, Some("my_addon"), "x");
    assert_eq!(bare.id, "my_addon");
    assert_eq!(bare.name, "my_addon");
    assert_eq!(bare.package, "my_addon");
    assert!(!bare.accepts_assets);
    assert!(bare.asset_categories.is_empty());
    assert_eq!(addon_meta_from_json(&Json::Null, None, "x").id, "unknown");

    let odd = addon_meta_from_json(
        &obj(vec![
            ("accepts_assets", s("yes")),
            ("asset_categories", s("not a list")),
            ("assets", obj(vec![("accepts", Json::Bool(false)), ("categories", arr(vec![s("c")]))])),
        ]),
        None,
        "x",
    );
    assert!(!odd.accepts_assets);
    assert_eq!(odd.asset_categories, strings(&["c"]));
}

#[test]
fn addons_listed_by_lower_cased_name() {
    let sorted = sort_addon_metas(vec![
        meta("beta", false, "b", &[]),
        meta("Alpha", false, "a1", &[]),
        meta("alpha", false, "a2", &[]),
    ]);
    let packages: Vec<String> = sorted.iter().map(|m| m.package.clone()).collect();
    assert_eq!(packages, strings(&["a1", "a2", "b"]));
}

#[test]
fn category_folders_match_singular_and_plural() {
    assert!(category_dir_matches("Wallpapers", "wallpaper"));
    assert!(category_dir_matches("wallpaper", "Wallpapers"));
    assert!(category_dir_matches("WALLPAPER", "wallpaper"));
    assert!(!category_dir_matches("themes", "wallpaper"));
    assert!(!category_dir_matches("wallpaperss", "wallpaper"));
}

#[test]
fn preview_positions_cycle() {
    assert_eq!(cycle_preview_index(None, 3, true), Some(1));
    assert_eq!(cycle_preview_index(Some(2), 3, true), Some(0));
    assert_eq!(cycle_preview_index(None, 3, false), Some(2));
    assert_eq!(cycle_preview_index(Some(1), 3, false), Some(0));
    assert_eq!(cycle_preview_index(Some(7), 3, false), Some(6));
    assert_eq!(cycle_preview_index(Some(5), 0, true), Some(5));
    assert_eq!(cycle_preview_index(None, 0, false), None);
    assert_eq!(pick_preview_index(None, 0), None);
    assert_eq!(pick_preview_index(Some(5), 3), Some(2));
    assert_eq!(pick_preview_index(None, 2), Some(0));
    assert_eq!(pick_preview_index(Some(1), 2), Some(1));
}

#[test]
fn asset_options_read_from_manifests() {
    let manifest = obj(vec![
        ("name", s("Forest")),
        ("version", s("1.2")),
        (
            "metadata",
            obj(vec![
                ("tags", arr(vec![s("nature"), Json::Number(JsonNumber::Unsigned(3)), s("green")])),
                ("short_description", s("Trees")),
                ("last_updated", s("2024-01-01")),
                ("author", obj(vec![("Ann", s("https://ann.example")), ("Bob", Json::Bool(true))])),
            ]),
        ),
        ("editable", obj(vec![("speed", obj(vec![("selector", s("#s"))]))])),
    ]);
    let a = asset_option_from_manifest(&manifest, Some("forest_dir"), "assets/forest/m", strings(&["p1.png"]));
    assert_eq!(a.id, "forest_dir");
    assert_eq!(a.name, "Forest");
    assert_eq!(a.version, Some("1.2".to_string()));
    assert_eq!(a.tags, strings(&["nature", "green"]));
    assert_eq!(a.short_description, Some("Trees".to_string()));
    assert_eq!(a.long_description, None);
    assert_eq!(a.last_updated, Some("2024-01-01".to_string()));
    assert_eq!(
        a.authors,
        vec![("Ann".to_string(), "https://ann.example".to_string()), ("Bob".to_string(), String::new())]
    );
    assert_eq!(a.preview_paths, strings(&["p1.png"]));
    assert_eq!(a.manifest_path, "assets/forest/m");
    assert_eq!(a.editable, obj(vec![("speed", obj(vec![("selector", s("#s"))]))]));

    let empty = asset_option_from_manifest(&Json::Null, None, "m", vec![]);
    assert_eq!(empty.id, "unknown");
    assert_eq!(empty.name, "unknown");
    assert!(empty.tags.is_empty());
    assert!(empty.authors.is_empty());
    assert_eq!(empty.editable, Json::Null);
}

#[test]
fn preview_sources_from_metadata() {
    assert_eq!(preview_source(&obj(vec![("preview", s("previews/*"))])), PreviewSource::Folder("previews".to_string()));
    assert_eq!(preview_source(&obj(vec![("preview", s("a/*/*"))])), PreviewSource::Folder("a".to_string()));
    assert_eq!(preview_source(&obj(vec![("preview", s("img.png"))])), PreviewSource::Files(strings(&["img.png"])));
    assert_eq!(
        preview_source(&obj(vec![("preview", arr(vec![s("a.png"), Json::Null, s("b.jpg")]))])),
        PreviewSource::Files(strings(&["a.png", "b.jpg"]))
    );
    assert_eq!(preview_source(&obj(vec![("preview", Json::Bool(true))])), PreviewSource::Unspecified);
    assert_eq!(preview_source(&obj(vec![])), PreviewSource::Unspecified);
    assert_eq!(preview_source(&Json::Null), PreviewSource::Unspecified);
}

#[test]
fn merged_assets_keep_first_of_each_id_by_name() {
    let merged = merge_assets(vec![asset("x", "Zeta"), asset("y", "alpha"), asset("x", "Beta"), asset("z", "beta")]);
    let ids: Vec<String> = merged.iter().map(|a| a.id.clone()).collect();
    assert_eq!(ids, strings(&["y", "z", "x"]));
    assert!(merge_assets(vec![]).is_empty());
}

fn field(path: &str, control: &str, category: Option<&str>) -> SchemaField {
    SchemaField { path: path.to_string(), control: control.to_string(), asset_category: category.map(|c| c.to_string()) }
}

fn schema() -> Vec<SchemaSection> {
    vec![
        SchemaSection {
            path: Some("wallpaper".to_string()),
            fields: vec![
                field("wallpaper_id", "asset_selector", Some("wallpaper")),
                field("mode", "dropdown", Some("ignored")),
                field("x. y", "ASSET_SELECTOR", Some("scenes")),
            ],
            sections: vec![SchemaSection {
                path: Some("assign".to_string()),
                fields: vec![field("m", "asset_selector", None)],
                sections: vec![],
            }],
        },
        SchemaSection { path: None, fields: vec![field("z", "asset_selector", Some("wallpaper"))], sections: vec![] },
    ]
}

#[test]
fn schema_asset_selectors_and_categories() {
    let paths = collect_asset_selector_paths(&schema());
    let expected: Vec<Vec<String>> = vec![
        strings(&["wallpaper", "wallpaper_id"]),
        strings(&["wallpaper", "x", "y"]),
        strings(&["wallpaper", "assign", "m"]),
        strings(&["z"]),
    ];
    assert_eq!(paths, expected);
    assert!(collect_asset_selector_paths(&vec![]).is_empty());

    assert!(asset_categories_for(&meta("W", false, "wp", &["a"]), &schema()).is_empty());
    assert_eq!(
        asset_categories_for(&meta("W", true, "wp", &[]), &schema()),
        strings(&["wp", "wallpaper", "wallpapers", "scenes"])
    );
    assert_eq!(asset_categories_for(&meta("W", true, "wp", &["img", "img"]), &vec![]), strings(&["img"]));
}

fn manifest_with(editable: Json) -> Json {
    obj(vec![("id", s("a")), ("editable", editable)])
}

#[test]
fn editable_values_are_saved_into_manifests() {
    let top = manifest_with(obj(vec![("speed", obj(vec![("selector", s("#s")), ("value", s("1"))]))]));
    let saved = set_editable_value(&top, "speed", &s("5")).unwrap();
    assert_eq!(member(member(member(&saved, "editable"), "speed"), "value"), &s("5"));
    assert_eq!(member(&saved, "id"), &s("a"));

    let grouped = manifest_with(obj(vec![
        ("colors", obj(vec![("tint", obj(vec![("label", s("no selector"))]))])),
        ("motion", obj(vec![("tint", obj(vec![("selector", s("#t"))]))])),
        ("tint", obj(vec![("label", s("group named like the key"))])),
    ]));
    let saved = set_editable_value(&grouped, "tint", &Json::Bool(true)).unwrap();
    let ed = member(&saved, "editable");
    assert_eq!(member(member(member(ed, "motion"), "tint"), "value"), &Json::Bool(true));
    assert_eq!(member(member(ed, "colors"), "tint"), &obj(vec![("label", s("no selector"))]));

    assert_eq!(set_editable_value(&top, "", &s("x")).unwrap_err(), "Missing manifest path or key");
    assert_eq!(set_editable_value(&obj(vec![]), "k", &s("x")).unwrap_err(), "No editable section in manifest");
    assert_eq!(set_editable_value(&Json::Null, "k", &s("x")).unwrap_err(), "No editable section in manifest");
    assert_eq!(set_editable_value(&manifest_with(s("flat")), "k", &s("x")).unwrap_err(), "editable is not an object");
    assert_eq!(
        set_editable_value(&grouped, "missing", &s("x")).unwrap_err(),
        "Key 'missing' not found in editable section"
    );
}

#[test]
fn assets_as_the_wallpaper_pages_show_them() {
    let manifest = obj(vec![
        ("id", s("forest")),
        ("metadata", obj(vec![("author", obj(vec![("Ann", s("https://ann.example"))])), ("tags", arr(vec![s("t")]))])),
    ]);
    let a = asset_option_from_manifest(&manifest, None, "C:\\h\\.Sentinel\\Assets\\forest\\m", strings(&["p.png"]));
    let shown = shell_asset(
        a,
        Some("C:\\h\\.Sentinel\\Assets\\forest\\p.png".to_string()),
        Some("D:\\elsewhere\\index.html".to_string()),
        "C:\\h\\.Sentinel",
    );
    assert_eq!(shown.id, "forest");
    assert_eq!(shown.author_name, Some("Ann".to_string()));
    assert_eq!(shown.author_url, Some("https://ann.example".to_string()));
    assert_eq!(shown.preview_url, Some("sentinel://localhost/Assets/forest/p.png".to_string()));
    assert_eq!(shown.html_url, None);
    assert_eq!(shown.tags, strings(&["t"]));
    assert_eq!(shown.manifest_path, "C:\\h\\.Sentinel\\Assets\\forest\\m");

    let plain = shell_asset(asset("q", "Q"), None, None, "home");
    assert_eq!(plain.author_name, None);
    assert_eq!(plain.preview_url, None);
}
