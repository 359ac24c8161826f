use veil_core::json::{Json, JsonNumber};
use veil_core::shell_message::{shell_message_action, BackendSetting, ShellAction, ShellMessage};

fn message(kind: &str) -> ShellMessage {
    ShellMessage {
        kind: kind.to_string(),
        addon_id: None,
        wallpaper_id: None,
        monitor_ids: None,
        monitor_indexes: None,
        path: None,
        value: None,
        property: None,
        key: None,
        manifest_path: None,
    }
}

#[test]
fn assignments_need_a_wallpaper_id() {
    let mut m = message("Wallpaper_Apply_Assignment");
    m.wallpaper_id = Some("sea".to_string());
    m.monitor_indexes = Some(vec!["1".to_string()]);
    match shell_message_action(m) {
        ShellAction::ApplyAssignment { addon_id, wallpaper_id, monitor_ids, monitor_indexes } => {
            assert_eq!(addon_id, "sentinel.addon.wallpaper");
            assert_eq!(wallpaper_id, "sea");
            assert!(monitor_ids.is_empty());
            assert_eq!(monitor_indexes, vec!["1".to_string()]);
        },
        _ => panic!("expected an assignment"),
    }
    let mut blank = message("wallpaper_apply_assignment");
    blank.wallpaper_id = Some("  ".to_string());
    assert!(matches!(shell_message_action(blank), ShellAction::Ignore));
    assert!(matches!(shell_message_action(message("wallpaper_apply_assignment")), ShellAction::Ignore));
}

#[test]
fn updates_carry_their_addon_path_and_value() {
    let mut m = message("config_update");
    m.addon_id = Some("bar".to_string());
    m.path = Some("a.b".to_string());
    m.value = Some(Json::Bool(true));
    match shell_message_action(m) {
        ShellAction::ConfigUpdate { addon_id, path, value } => {
            assert_eq!(addon_id, "bar");
            assert_eq!(path, "a.b");
            assert_eq!(value, Json::Bool(true));
        },
        _ => panic!("expected a config update"),
    }
    match shell_message_action(message("wallpaper_update_property")) {
        ShellAction::UpdateProperty { property, value, .. } => {
            assert_eq!(property, "");
            assert_eq!(value, Json::Null);
        },
        _ => panic!("expected a property update"),
    }
    assert!(matches!(shell_message_action(message("clear_cache")), ShellAction::ClearCache { .. }));
    assert!(matches!(shell_message_action(message("wallpaper_capture_preview")), ShellAction::CapturePreview { .. }));
    assert!(matches!(shell_message_action(message("wallpaper_save_editable")), ShellAction::SaveEditable { .. }));
    assert!(matches!(shell_message_action(message("dance")), ShellAction::Ignore));
}

#[test]
fn backend_settings_need_a_value_of_their_kind() {
    let mut m = message("backend_setting");
    m.key = Some("fast_pull_rate".to_string());
    m.value = Some(Json::Number(JsonNumber::Unsigned(75)));
    assert!(matches!(shell_message_action(m), ShellAction::Backend(BackendSetting::FastPullRate(75))));
    let mut m = message("backend_setting");
    m.key = Some("pull_paused".to_string());
    m.value = Some(Json::Bool(true));
    assert!(matches!(shell_message_action(m), ShellAction::Backend(BackendSetting::PullPaused(true))));
    let mut m = message("backend_setting");
    m.key = Some("slow_pull_rate".to_string());
    m.value = Some(Json::Bool(true));
    assert!(matches!(shell_message_action(m), ShellAction::Ignore));
    let mut m = message("backend_setting");
    m.key = Some("volume".to_string());
    m.value = Some(Json::Bool(true));
    assert!(matches!(shell_message_action(m), ShellAction::Ignore));
}
