use veil_core::media::media_timeline;
use veil_core::gpu::{gpu_summary_json, is_gpu_sensor, merge_gpu_adapters, parse_nvidia_smi_csv};
use veil_core::json::{Json, JsonNumber};
use veil_core::media::{
    choose_media_session, media_session_score, media_status_name, playback_type_name, repeat_mode_name,
    SessionFacts,
};

fn s(t: &str) -> Json {
    Json::Str(t.to_string())
}

fn u(n: u64) -> Json {
    Json::Number(JsonNumber::Unsigned(n))
}

fn d(t: &str) -> Json {
    Json::Number(JsonNumber::Decimal(t.to_string()))
}

fn obj(pairs: Vec<(&str, Json)>) -> Json {
    Json::Object(pairs.into_iter().map(|(k, v)| (k.to_string(), v)).collect())
}

fn member<'a>(j: &'a Json, key: &str) -> Option<&'a Json> {
    match j {
        Json::Object(ms) => ms.iter().find(|(k, _)| k == key).map(|(_, v)| v),
        _ => None,
    }
}

#[test]
fn nvidia_csv_lines_become_adapters() {
    let text = "NVIDIA GeForce RTX 3080, 551.23, 12, 30, 0, [N/A], 10240, 3072, 7168, 55, 120.50, 40, 1800, 9501\nshort, line\n";
    let rows = parse_nvidia_smi_csv(text);
    assert_eq!(rows.len(), 1);
    let r = &rows[0];
    assert_eq!(member(r, "name"), Some(&s("NVIDIA GeForce RTX 3080")));
    assert_eq!(member(r, "driver_version"), Some(&s("551.23")));
    assert_eq!(member(r, "usage_percent"), Some(&d("12")));
    assert_eq!(member(r, "decoder_usage_percent"), Some(&Json::Null));
    assert_eq!(member(r, "vram_total_mb"), Some(&u(10240)));
    assert_eq!(member(r, "power_draw_w"), Some(&d("120.50")));
    assert_eq!(member(r, "clock_memory_mhz"), Some(&u(9501)));
    assert_eq!(member(r, "source"), Some(&s("nvidia-smi")));
    let na = parse_nvidia_smi_csv("X, [Not Supported], N/A, 1.2.3, -4, +5., a, , 1, 2, 3, 4, 5, 6");
    assert_eq!(member(&na[0], "driver_version"), Some(&Json::Null));
    assert_eq!(member(&na[0], "usage_percent"), Some(&Json::Null));
    assert_eq!(member(&na[0], "memory_usage_percent"), Some(&Json::Null));
    assert_eq!(member(&na[0], "encoder_usage_percent"), Some(&d("-4")));
    assert_eq!(member(&na[0], "decoder_usage_percent"), Some(&d("+5.")));
    assert_eq!(member(&na[0], "vram_total_mb"), Some(&Json::Null));
    assert!(parse_nvidia_smi_csv("").is_empty());
}

#[test]
fn gpu_sensors_are_told_by_their_labels() {
    assert!(is_gpu_sensor("GPU Core"));
    assert!(is_gpu_sensor("amdgpu edge"));
    assert!(is_gpu_sensor("Intel Graphics"));
    assert!(!is_gpu_sensor("Package id 0"));
}

#[test]
fn adapters_are_merged_by_name() {
    let nv = vec![obj(vec![("name", s("NVIDIA GeForce RTX 3080")), ("driver_version", s("551.23"))])];
    let wmi = vec![
        obj(vec![
            ("name", s("nvidia geforce rtx 3080")),
            ("driver_version", s("31.0")),
            ("adapter_ram_bytes", u(4096)),
            ("manufacturer", Json::Null),
            ("current_resolution", s("2560x1440")),
        ]),
        obj(vec![("name", s("Intel UHD 770"))]),
        obj(vec![("name", s(""))]),
    ];
    let merged = merge_gpu_adapters(&nv, &wmi, &vec![], 8);
    assert_eq!(merged.len(), 2);
    assert_eq!(member(&merged[0], "driver_version"), Some(&s("551.23")));
    assert_eq!(member(&merged[0], "adapter_ram_bytes"), Some(&u(4096)));
    assert_eq!(member(&merged[0], "manufacturer"), None);
    assert_eq!(member(&merged[0], "current_resolution"), Some(&s("2560x1440")));
    assert_eq!(member(&merged[0], "shared_gpu_memory_bytes"), Some(&u(8)));
    assert_eq!(member(&merged[1], "name"), Some(&s("Intel UHD 770")));
    let only_wmi = merge_gpu_adapters(&vec![], &wmi, &vec![], 2);
    assert_eq!(only_wmi.len(), 3);
    assert_eq!(member(&only_wmi[2], "shared_gpu_memory_bytes"), Some(&u(2)));
    let labels = vec![" radeon ".to_string(), "amdgpu".to_string(), "radeon".to_string(), "  ".to_string()];
    let fallback = merge_gpu_adapters(&vec![], &vec![], &labels, 3);
    assert_eq!(fallback.len(), 2);
    assert_eq!(member(&fallback[0], "name"), Some(&s("amdgpu")));
    assert_eq!(member(&fallback[1], "name"), Some(&s("radeon")));
    assert_eq!(member(&fallback[1], "source"), Some(&s("sensor-fallback")));
}

#[test]
fn the_gpu_summary_comes_from_the_first_adapter() {
    let adapters = vec![obj(vec![("name", s("A")), ("vram_total_mb", u(10))]), obj(vec![("name", s("B"))])];
    let sensors = vec![obj(vec![("label", s("A"))])];
    let g = gpu_summary_json(&adapters, &sensors, d("41.5"), 7);
    assert_eq!(member(&g, "detected"), Some(&Json::Bool(true)));
    assert_eq!(member(&g, "name"), Some(&s("A")));
    assert_eq!(member(&g, "vram_total_mb"), Some(&u(10)));
    assert_eq!(member(&g, "driver_version"), Some(&Json::Null));
    assert_eq!(member(&g, "temperature_c"), Some(&d("41.5")));
    assert_eq!(member(&g, "shared_gpu_memory_bytes"), Some(&u(7)));
    let none = gpu_summary_json(&vec![], &vec![], d("0"), 0);
    assert_eq!(member(&none, "detected"), Some(&Json::Bool(false)));
    assert_eq!(member(&none, "name"), Some(&Json::Null));
}

fn facts(status: Option<i32>, app: Option<&str>, pos: Option<i64>, start: Option<i64>, end: Option<i64>) -> SessionFacts {
    SessionFacts { status, app_id: app.map(|a| a.to_string()), position_ms: pos, start_ms: start, end_ms: end }
}

#[test]
fn sessions_are_scored() {
    // Playing, a four-minute track halfway through.
    assert_eq!(media_session_score(&facts(Some(4), None, Some(120_000), Some(0), Some(240_000)), false), 300 + 20 + 90 + 40);
    // Paused, same app, nearly at its end, a 20-minute video.
    assert_eq!(media_session_score(&facts(Some(5), None, Some(1_199_500), None, Some(1_200_000)), true), 200 + 25 + 20 + 220 - 20);
    // Unknown status and no timeline.
    assert_eq!(media_session_score(&facts(None, None, None, None, None), false), 20);
    // A zero-length timeline.
    assert_eq!(media_session_score(&facts(Some(3), None, Some(5), Some(10), Some(0)), false), 60 - 50);
}

#[test]
fn the_best_session_is_chosen() {
    let current = facts(Some(5), Some("spotify"), None, None, None);
    let candidates = vec![
        facts(Some(4), Some("browser"), Some(10_000), Some(0), Some(30_000)),
        facts(Some(4), Some("spotify"), Some(10_000), Some(0), Some(200_000)),
        facts(Some(4), Some("other"), Some(10_000), Some(0), Some(200_000)),
    ];
    assert_eq!(choose_media_session(Some(&current), &candidates), Some(1));
    let weak = vec![facts(Some(3), None, None, None, None)];
    assert_eq!(choose_media_session(Some(&current), &weak), None);
    assert_eq!(choose_media_session(None, &weak), Some(0));
    assert_eq!(choose_media_session(None, &vec![]), None);
}

#[test]
fn media_codes_are_named() {
    assert_eq!(media_status_name(4), "playing");
    assert_eq!(media_status_name(0), "closed");
    assert_eq!(media_status_name(9), "unknown");
    assert_eq!(repeat_mode_name(2), "list");
    assert_eq!(repeat_mode_name(-1), "unknown");
    assert_eq!(playback_type_name(1), "music");
    assert_eq!(playback_type_name(7), "other");
}

#[test]
fn nvidia_decimals_may_have_an_exponent() {
    let rows = parse_nvidia_smi_csv("G, 1, 1e5, 2.5E-3, 1e, inf, 0, 0, 0, -3.e+2, nan, .5, 0, 0");
    let r = &rows[0];
    assert_eq!(member(r, "usage_percent"), Some(&d("1e5")));
    assert_eq!(member(r, "memory_usage_percent"), Some(&d("2.5E-3")));
    assert_eq!(member(r, "encoder_usage_percent"), Some(&Json::Null));
    assert_eq!(member(r, "decoder_usage_percent"), Some(&Json::Null));
    assert_eq!(member(r, "temperature_c"), Some(&d("-3.e+2")));
    assert_eq!(member(r, "power_draw_w"), Some(&Json::Null));
    assert_eq!(member(r, "fan_speed_percent"), Some(&d(".5")));
}

#[test]
fn media_timeline_fields() {
    assert_eq!(media_timeline(Some(5_000), Some(1_000), Some(61_000)), (Some(4_000), Some(60_000)));
    assert_eq!(media_timeline(Some(500), Some(1_000), Some(0)), (Some(0), Some(0)));
    assert_eq!(media_timeline(Some(-7), None, Some(9)), (Some(0), None));
    assert_eq!(media_timeline(None, None, None), (None, None));
}
