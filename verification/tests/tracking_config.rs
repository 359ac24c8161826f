use veil_core::config::{
    current_config, fast_pull_rate_ms, install_config, pull_paused, refresh_on_request, set_fast_pull_rate_ms,
    set_pull_paused, set_refresh_on_request, set_slow_pull_rate_ms, set_ui_data_exception_enabled,
    slow_pull_rate_ms, ui_data_exception_enabled, BackendConfig, ConfigStore,
};
use veil_core::tracking::{
    category_name_string, demand_tracking_active, next_tier_action, normalize_section, section_name_string,
    section_to_internal_category, section_tracking_enabled, set_explicit_tracking_demands, touch_ui_heartbeat,
    trackable_sections, Section, Tier, TierAction, TrackingState,
};

fn names(v: &[&str]) -> Vec<String> {
    v.iter().map(|s| s.to_string()).collect()
}

#[test]
fn default_config_values() {
    let c = BackendConfig::default();
    assert_eq!(c.fast_pull_rate_ms, 50);
    assert_eq!(c.slow_pull_rate_ms, 1000);
    assert!(!c.data_pull_paused);
    assert!(c.refresh_on_request);
    assert!(c.ui_data_exception_enabled);
    assert_eq!(c.data_pull_rate_ms, None);
}

#[test]
fn new_store_uses_defaults() {
    let s = ConfigStore::new();
    assert_eq!(fast_pull_rate_ms(&s), 50);
    assert_eq!(slow_pull_rate_ms(&s), 1000);
    assert!(!pull_paused(&s));
    assert!(refresh_on_request(&s));
    assert!(ui_data_exception_enabled(&s));
    assert_eq!(current_config(&s), BackendConfig::default());
}

#[test]
fn install_clamps_runtime_but_keeps_persisted() {
    let mut s = ConfigStore::new();
    let cfg = BackendConfig {
        fast_pull_rate_ms: 9000,
        slow_pull_rate_ms: 20000,
        data_pull_paused: true,
        refresh_on_request: false,
        ui_data_exception_enabled: false,
        data_pull_rate_ms: None,
    };
    install_config(&mut s, cfg);
    assert_eq!(fast_pull_rate_ms(&s), 5000);
    assert_eq!(slow_pull_rate_ms(&s), 10000);
    assert!(pull_paused(&s));
    assert!(!refresh_on_request(&s));
    assert!(!ui_data_exception_enabled(&s));
    assert_eq!(current_config(&s), cfg);
}

#[test]
fn setters_clamp_and_persist() {
    let mut s = ConfigStore::new();
    assert_eq!(set_fast_pull_rate_ms(&mut s, 7000), 5000);
    assert_eq!(set_slow_pull_rate_ms(&mut s, 300), 300);
    set_pull_paused(&mut s, true);
    set_refresh_on_request(&mut s, false);
    set_ui_data_exception_enabled(&mut s, false);
    let c = current_config(&s);
    assert_eq!(c.fast_pull_rate_ms, 5000);
    assert_eq!(c.slow_pull_rate_ms, 300);
    assert!(c.data_pull_paused);
    assert!(!c.refresh_on_request);
    assert!(!c.ui_data_exception_enabled);
    assert_eq!(fast_pull_rate_ms(&s), 5000);
    assert_eq!(slow_pull_rate_ms(&s), 300);
}

#[test]
fn reloading_saved_config_restores_store() {
    let mut s = ConfigStore::new();
    set_fast_pull_rate_ms(&mut s, 120);
    set_slow_pull_rate_ms(&mut s, 12000);
    set_pull_paused(&mut s, true);
    let saved = current_config(&s);
    let mut reloaded = ConfigStore::new();
    install_config(&mut reloaded, saved);
    assert_eq!(fast_pull_rate_ms(&reloaded), fast_pull_rate_ms(&s));
    assert_eq!(slow_pull_rate_ms(&reloaded), slow_pull_rate_ms(&s));
    assert_eq!(pull_paused(&reloaded), pull_paused(&s));
    assert_eq!(current_config(&reloaded), current_config(&s));
}

#[test]
fn section_names_normalize() {
    assert_eq!(normalize_section("CPU"), Some(Section::Cpu));
    assert_eq!(normalize_section("display"), Some(Section::Displays));
    assert_eq!(normalize_section("Displays"), Some(Section::Displays));
    assert_eq!(normalize_section("appdata"), Some(Section::Appdata));
    assert_eq!(normalize_section("weather"), None);
    assert_eq!(section_name_string(Section::Displays), "displays");
    assert_eq!(category_name_string(Section::Displays), "display");
    assert_eq!(category_name_string(Section::Wifi), "wifi");
    assert_eq!(section_to_internal_category("DISPLAYS"), Some("display".to_string()));
    assert_eq!(section_to_internal_category("nothing"), None);
    assert_eq!(trackable_sections().len(), 17);
}

#[test]
fn demands_replace_and_report_change() {
    let mut st = TrackingState::new();
    assert!(set_explicit_tracking_demands(&mut st, &names(&["cpu", "ram", "bogus"])));
    assert!(st.explicit.has(Section::Cpu));
    assert!(st.explicit.has(Section::Ram));
    assert!(!st.explicit.has(Section::Gpu));
    // The same demands again change nothing.
    assert!(!set_explicit_tracking_demands(&mut st, &names(&["RAM", "cpu"])));
    assert!(set_explicit_tracking_demands(&mut st, &names(&[])));
    assert!(!st.explicit.has(Section::Cpu));
}

#[test]
fn heartbeat_tracks_everything_while_fresh() {
    let mut st = TrackingState::new();
    touch_ui_heartbeat(&mut st, 10_000);
    assert!(section_tracking_enabled(&st, true, 12_500, "gpu"));
    assert!(!section_tracking_enabled(&st, true, 12_501, "gpu"));
    assert!(!section_tracking_enabled(&st, false, 10_000, "gpu"));
    assert!(!section_tracking_enabled(&st, true, 10_000, "unknown"));
    assert!(demand_tracking_active(&st, false, true, 11_000));
    assert!(!demand_tracking_active(&st, true, true, 11_000));
    assert!(!demand_tracking_active(&st, false, true, 20_000));
}

#[test]
fn tier_actions_follow_demands() {
    let mut st = TrackingState::new();
    set_explicit_tracking_demands(&mut st, &names(&["audio", "time", "gpu"]));
    match next_tier_action(Tier::Fast, &st, false, true, 40, 900, 100_000) {
        TierAction::Collect(v, ms) => {
            assert_eq!(v, vec![Section::Time, Section::Audio]);
            assert_eq!(ms, 40);
        }
        other => panic!("unexpected {:?}", other),
    }
    match next_tier_action(Tier::Slow, &st, false, true, 40, 10, 100_000) {
        TierAction::Collect(v, ms) => {
            assert_eq!(v, vec![Section::Gpu]);
            assert_eq!(ms, 50);
        }
        other => panic!("unexpected {:?}", other),
    }
    match next_tier_action(Tier::Cpu, &st, false, true, 40, 900, 100_000) {
        TierAction::Sleep(ms) => assert_eq!(ms, 250),
        other => panic!("unexpected {:?}", other),
    }
    match next_tier_action(Tier::Fast, &st, true, true, 40, 900, 100_000) {
        TierAction::Sleep(ms) => assert_eq!(ms, 50),
        other => panic!("unexpected {:?}", other),
    }
    match next_tier_action(Tier::Slow, &st, true, true, 40, 900, 100_000) {
        TierAction::Sleep(ms) => assert_eq!(ms, 100),
        other => panic!("unexpected {:?}", other),
    }
}

#[test]
fn fresh_heartbeat_collects_whole_tier() {
    let mut st = TrackingState::new();
    touch_ui_heartbeat(&mut st, 5_000);
    match next_tier_action(Tier::Appdata, &st, false, true, 10, 900, 5_100) {
        TierAction::Collect(v, ms) => {
            assert_eq!(v, vec![Section::Appdata]);
            assert_eq!(ms, 25);
        }
        other => panic!("unexpected {:?}", other),
    }
    match next_tier_action(Tier::Fast, &st, false, true, 0, 900, 5_100) {
        TierAction::Collect(v, ms) => {
            assert_eq!(v.len(), 6);
            assert_eq!(v[5], Section::Power);
            assert_eq!(ms, 1);
        }
        other => panic!("unexpected {:?}", other),
    }
}
