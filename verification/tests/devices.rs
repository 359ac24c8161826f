use sha2::{Digest, Sha256};
use veil_core::appdata::{parse_bluetooth_output, parse_notifications_output, parse_tray_output};
use veil_core::display::{
    bits_per_channel, compute_aspect_ratio, connection_type_name, extract_hw_id, gcd, match_edid, monitor_id,
    orientation_name, parse_edid_output, parse_hdr_output,
};
use veil_core::json::{get_member, Json, JsonNumber};
use veil_core::window::{
    app_icon_for, app_name_for, excluded_app, window_json, window_state, window_to_monitor_info, ActiveWindowInfo,
    Rect, WindowFacts, WindowPosition, WindowSize,
};

fn s(x: &str) -> Json {
    Json::Str(x.to_string())
}

fn n(x: u64) -> Json {
    Json::Number(JsonNumber::Unsigned(x))
}

fn rect(l: i32, t: i32, r: i32, b: i32) -> Rect {
    Rect { left: l, top: t, right: r, bottom: b }
}

fn facts(friendly: &str, exe: &str) -> WindowFacts {
    WindowFacts {
        handle: 4242,
        monitor_id: "MON1".to_string(),
        focused: true,
        friendly_name: friendly.to_string(),
        exe_path: exe.to_string(),
        window_title: "Doc".to_string(),
        pid: 77,
        rect_ok: true,
        rect: rect(10, 20, 110, 220),
        monitor_rect: rect(0, 0, 1920, 1080),
        maximized: false,
        has_frame: true,
    }
}

#[test]
fn aspect_ratios_and_gcd() {
    assert_eq!(gcd(1920, 1080), 120);
    assert_eq!(gcd(7, 0), 7);
    assert_eq!(compute_aspect_ratio(1920, 1080), "16:9");
    assert_eq!(compute_aspect_ratio(2560, 1080), "64:27");
    assert_eq!(compute_aspect_ratio(1000, 1000), "1:1");
    assert_eq!(compute_aspect_ratio(0, 1080), "");
    assert_eq!(compute_aspect_ratio(1920, -5), "");
}

#[test]
fn display_names() {
    assert_eq!(orientation_name(0), "landscape");
    assert_eq!(orientation_name(3), "portrait_flipped");
    assert_eq!(orientation_name(9), "unknown");
    assert_eq!(connection_type_name(5), "HDMI");
    assert_eq!(connection_type_name(10), "DisplayPort (ext)");
    assert_eq!(connection_type_name(i32::MIN), "Internal");
    assert_eq!(connection_type_name(7), "Other (7)");
    assert_eq!(connection_type_name(-2), "Other (-2)");
    assert_eq!(bits_per_channel(24), 8);
    assert_eq!(bits_per_channel(30), 10);
}

#[test]
fn hardware_ids() {
    assert_eq!(extract_hw_id("MONITOR\\GSM5BBF\\{4d36e96e}\\0001"), "GSM5BBF");
    assert_eq!(extract_hw_id("DISPLAY\\DEL40F3_0"), "DEL40F3_0");
    assert_eq!(extract_hw_id("nothing"), "");
}

#[test]
fn edid_reports_parse() {
    let text = "InstanceName=DISPLAY\\GSM5BBF\\1\nMonitorName= LG HDR 4K \nManufacturer=GSM\nYearOfManufacture=2021\nVideoOutputTechnology=10\nHorizontalSizeCm=60\nVerticalSizeCm=34\n\nInstanceName=\nMonitorName=ghost\n\nInstanceName=DISPLAY\\DEL1\\2\n";
    let found = parse_edid_output(text);
    assert_eq!(found.len(), 1);
    let (inst, info) = &found[0];
    assert_eq!(inst, "DISPLAY\\GSM5BBF\\1");
    assert_eq!(info.monitor_name, "LG HDR 4K");
    assert_eq!(info.manufacturer, "GSM");
    assert_eq!(info.year_of_manufacture, 2021);
    assert_eq!(info.connection_type, "DisplayPort (ext)");
    assert_eq!(info.physical_width_mm, 600);
    assert_eq!(info.physical_height_mm, 340);
    assert_eq!(info.serial_number, "");
}

#[test]
fn hdr_reports_parse() {
    assert_eq!(parse_hdr_output("HDR=DISPLAY1\r\n  HDR=DISPLAY2  \nSDR=DISPLAY3\n"), vec!["DISPLAY1", "DISPLAY2"]);
}

#[test]
fn edid_matching_prefers_hardware_id() {
    let insts = vec!["DISPLAY\\DEL1\\1".to_string(), "DISPLAY\\GSM5BBF\\1".to_string()];
    assert_eq!(match_edid("gsm5bbf", &insts, &vec![false, false]), Some(1));
    assert_eq!(match_edid("GSM5BBF", &insts, &vec![false, true]), Some(0));
    assert_eq!(match_edid("", &insts, &vec![true, false]), Some(1));
    assert_eq!(match_edid("XYZ", &insts, &vec![true, true]), None);
}

#[test]
fn monitor_ids_hash_name_and_rect() {
    let mut bytes: Vec<u8> = "\\\\.\\DISPLAY1".as_bytes().to_vec();
    for v in [0i32, 0, 1920, 1080] {
        bytes.extend_from_slice(&v.to_le_bytes());
    }
    let expected: String = Sha256::digest(&bytes).iter().map(|b| format!("{:02x}", b)).collect();
    let id = monitor_id("\\\\.\\DISPLAY1", 0, 0, 1920, 1080);
    assert_eq!(id, expected);
    assert_eq!(id.len(), 64);
    assert_ne!(id, monitor_id("\\\\.\\DISPLAY1", -1920, 0, 0, 1080));
}

#[test]
fn window_names_and_states() {
    assert_eq!(app_name_for("Visual Studio Code", "C:\\x\\Code.exe"), "Visual Studio Code");
    assert_eq!(app_name_for("unknown", "C:\\x\\Code.exe"), "Code.exe");
    assert_eq!(app_name_for("", "C:/apps/tool.exe"), "tool.exe");
    assert_eq!(app_name_for("", ""), "unknown");
    assert!(excluded_app("SearchHost.exe"));
    assert!(!excluded_app("notepad.exe"));
    assert_eq!(app_icon_for("C:\\x\\a.exe"), "C:\\x\\a.exe\\icon.ico");
    assert_eq!(app_icon_for(""), "");
    let m = rect(0, 0, 1920, 1080);
    assert_eq!(window_state(true, &rect(1, -1, 1921, 1080), &m, false, false), "fullscreen");
    assert_eq!(window_state(true, &rect(0, 0, 1920, 1080), &m, true, false), "maximized");
    assert_eq!(window_state(true, &rect(0, 0, 1920, 1080), &m, false, true), "normal");
    assert_eq!(window_state(false, &rect(0, 0, 1920, 1080), &m, false, false), "normal");
}

#[test]
fn window_entries() {
    let e = window_to_monitor_info(&facts("Editor", "C:\\bin\\ed.exe")).unwrap();
    assert_eq!(e.id, "active_window_MON1_4242");
    assert_eq!(e.category, "active_window");
    assert_eq!(e.subtype, "monitor");
    assert_eq!(e.exe_path, "C:\\bin\\ed.exe");
    assert_eq!(get_member(&e.metadata, "app_name"), Some(&s("Editor")));
    assert_eq!(get_member(&e.metadata, "pid"), Some(&n(77)));
    assert_eq!(get_member(&e.metadata, "window_state"), Some(&s("normal")));
    let size = get_member(&e.metadata, "size").unwrap();
    assert_eq!(get_member(size, "width"), Some(&Json::Number(JsonNumber::Signed(100))));
    assert_eq!(get_member(size, "height"), Some(&Json::Number(JsonNumber::Signed(200))));
    assert!(window_to_monitor_info(&facts("", "C:\\Windows\\TextInputHost.exe")).is_none());
    let info = ActiveWindowInfo {
        monitor_id: "M".to_string(),
        focused: false,
        app_icon: String::new(),
        app_name: "a".to_string(),
        exe_path: String::new(),
        window_title: "t".to_string(),
        pid: 1,
        window_state: "normal".to_string(),
        size: WindowSize { width: 3, height: 4 },
        position: WindowPosition { x: -5, y: 6 },
    };
    let j = window_json(&info);
    let pos = get_member(&j, "position").unwrap();
    assert_eq!(get_member(pos, "x"), Some(&Json::Number(JsonNumber::Signed(-5))));
}

#[test]
fn notification_reports() {
    let text = "COUNT=3\nNOTIF_START=\nNOTIF_ID=1\nNOTIF_APP=Mail\nNOTIF_TITLE=Hi\nNOTIF_BODY=Body\nNOTIF_TIME=10:00\nNOTIF_END=\nNOTIF_ID=stray\n";
    let j = parse_notifications_output(text);
    assert_eq!(get_member(&j, "count"), Some(&n(3)));
    assert_eq!(get_member(&j, "returned"), Some(&n(1)));
    match get_member(&j, "notifications").unwrap() {
        Json::Array(items) => {
            assert_eq!(items.len(), 1);
            assert_eq!(get_member(&items[0], "app_name"), Some(&s("Mail")));
            assert_eq!(get_member(&items[0], "created_at"), Some(&s("10:00")));
        }
        other => panic!("unexpected {:?}", other),
    }
    let denied = parse_notifications_output("ACCESS_DENIED= user said no\n");
    assert_eq!(get_member(&denied, "error"), Some(&s("Notification access denied: user said no")));
    assert_eq!(get_member(&denied, "access"), Some(&s("denied")));
    let err = parse_notifications_output("COUNT=1\nERROR=boom\n");
    assert_eq!(get_member(&err, "error"), Some(&s("boom")));
}

#[test]
fn tray_reports() {
    let text = "ICON_START=\nICON_AREA=Overflow\nICON_PID=12\nICON_PROCNAME=app\nICON_VISIBLE=TRUE\nICON_END=\nICON_START=\nICON_AREA=Notification\nICON_PID=x\nICON_END=\n";
    let j = parse_tray_output(text, "  slow probe  ");
    assert_eq!(get_member(&j, "count"), Some(&n(2)));
    assert_eq!(get_member(&j, "visible_count"), Some(&n(1)));
    assert_eq!(get_member(&j, "overflow_count"), Some(&n(1)));
    assert_eq!(get_member(&j, "warning"), Some(&s("slow probe")));
    match get_member(&j, "icons").unwrap() {
        Json::Array(items) => {
            assert_eq!(get_member(&items[0], "pid"), Some(&n(12)));
            assert_eq!(get_member(&items[1], "pid"), Some(&n(0)));
            assert_eq!(get_member(&items[1], "visible"), Some(&Json::Bool(false)));
        }
        other => panic!("unexpected {:?}", other),
    }
    assert_eq!(get_member(&parse_tray_output("", ""), "warning"), None);
}

#[test]
fn bluetooth_reports() {
    let text = "BEGIN_DEVICE\nName=Headphones\nConnected=true\nAddress=AA:BB\nEND_DEVICE\nBEGIN_DEVICE\nName=Headphones Avrcp Transport\nEND_DEVICE\nBEGIN_DEVICE\nEND_DEVICE\n";
    let ds = parse_bluetooth_output(text);
    assert_eq!(ds.len(), 1);
    assert_eq!(get_member(&ds[0], "name"), Some(&s("Headphones")));
    assert_eq!(get_member(&ds[0], "connected"), Some(&Json::Bool(true)));
    assert_eq!(get_member(&ds[0], "address"), Some(&s("AA:BB")));
    assert_eq!(get_member(&ds[0], "class"), Some(&Json::Null));
}

#[test]
fn monitor_id_parts() {
    assert_eq!(veil_core::display::hex_digest_text(&vec![0x00, 0x0f, 0xa5, 0xff]), "000fa5ff");
    assert_eq!(veil_core::display::hex_digest_text(&vec![]), "");
    let bytes = veil_core::display::monitor_id_bytes("é", 1, -1, 256, 0);
    assert_eq!(bytes, vec![0xc3, 0xa9, 1, 0, 0, 0, 0xff, 0xff, 0xff, 0xff, 0, 1, 0, 0, 0, 0, 0, 0]);
}

#[test]
fn monitors_take_reports_once_and_have_sizes() {
    let insts = vec!["DISPLAY\\GSM5BBF\\5&1\\0".to_string(), "DISPLAY\\DEL4321\\5&2\\0".to_string()];
    let mut used = vec![false, false];
    assert_eq!(veil_core::display::take_edid("DEL4321", &insts, &mut used), Some(1));
    assert_eq!(used, vec![false, true]);
    assert_eq!(veil_core::display::take_edid("DEL4321", &insts, &mut used), Some(0));
    assert_eq!(used, vec![true, true]);
    assert_eq!(veil_core::display::take_edid("", &insts, &mut used), None);
    assert_eq!(veil_core::display::monitor_size(0, 0, 1920, 1080, 3840, 2160), (1920, 1080, 3840, 2160));
    assert_eq!(veil_core::display::monitor_size(10, 10, 10, 5, 0, 0), (1, 1, 1, 1));
}
