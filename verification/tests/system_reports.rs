use veil_core::json::{Json, JsonNumber};
use veil_core::report::{
    power_status_json, PowerStatus,
    accent_hex_of, attach_disk_fields, battery_capacities, battery_json, bios_json, bluetooth_adapter_json, compressed_pages_text,
    cpu_details_json, gpu_adapters_json, locale_json, locale_utc_offset_text, memory_counters_json,
    motherboard_json, physical_disk_for, physical_disks_json, power_plan_json, ram_hardware_json, theme_json, visible_memory_kb,
    wifi_connected_json, wifi_interfaces_json, wifi_rate_texts,
};

fn s(t: &str) -> Json {
    Json::Str(t.to_string())
}

fn n(v: u64) -> Json {
    Json::Number(JsonNumber::Unsigned(v))
}

fn member<'a>(j: &'a Json, key: &str) -> &'a Json {
    match j {
        Json::Object(ms) => &ms.iter().find(|(k, _)| k == key).expect("member present").1,
        _ => panic!("not an object"),
    }
}

fn items(j: &Json) -> &Vec<Json> {
    match j {
        Json::Array(v) => v,
        _ => panic!("not an array"),
    }
}

#[test]
fn bios_and_motherboard_reports() {
    let bios = bios_json("Manufacturer= ACME \r\nName=\nVersion=1.0\nVersion=1.1\nReleaseDate=2020\nignored line\n");
    assert_eq!(member(&bios, "manufacturer"), &s("ACME"));
    assert_eq!(member(&bios, "name"), &Json::Null);
    assert_eq!(member(&bios, "version"), &s("1.1"));
    assert_eq!(member(&bios, "release_date"), &s("2020"));
    assert_eq!(member(&bios, "serial_number"), &Json::Null);
    let board = motherboard_json("  Manufacturer=Board Co\nProduct=X1\nSerialNumber=123\n");
    assert_eq!(member(&board, "manufacturer"), &s("Board Co"));
    assert_eq!(member(&board, "product"), &s("X1"));
    assert_eq!(member(&board, "version"), &Json::Null);
    assert_eq!(member(&board, "serial_number"), &s("123"));
}

#[test]
fn theme_report() {
    let t = theme_json("AppsUseLightTheme=0\nSystemUsesLightTheme=1\nEnableTransparency=1\nAccentColor=4292311040\nColorPrevalence=\n");
    assert_eq!(member(&t, "app_theme"), &s("dark"));
    assert_eq!(member(&t, "system_theme"), &s("light"));
    assert_eq!(member(&t, "transparency_enabled"), &Json::Bool(true));
    assert_eq!(member(&t, "accent_color_raw"), &n(4292311040));
    assert_eq!(member(&t, "accent_color_hex"), &s("#0078d7"));
    assert_eq!(member(&t, "color_on_title_bars"), &Json::Bool(false));
    let empty = theme_json("");
    assert_eq!(member(&empty, "app_theme"), &Json::Null);
    assert_eq!(member(&empty, "accent_color_hex"), &Json::Null);
    assert_eq!(accent_hex_of(0x00ff8040), "#4080ff");
}

#[test]
fn power_plan_names() {
    assert_eq!(
        power_plan_json("Power Scheme GUID: 381b4222-f694-41f0-9685-ff5bb260df2e  (Balanced)\r\n"),
        s("Balanced")
    );
    assert_eq!(power_plan_json("GUID: x  ( High (custom) )"), s("High (custom)"));
    assert_eq!(power_plan_json("no name here"), Json::Null);
    assert_eq!(power_plan_json(") before ("), Json::Null);
}

#[test]
fn locale_report() {
    let text = "Name=en-US\nDisplayName=English (United States)\nTwoLetterISO=en\nThreeLetterISO=eng\nTimeZoneId=Pacific\nTimeZoneName=(UTC-08:00) Pacific\nTimeZoneUtcOffset=-8\nDaylightSaving=True\nCountry=United States\nCountryCode=US\nCurrencySymbol=$\nCurrencyName=US Dollar\n";
    assert_eq!(locale_utc_offset_text(text), "-8");
    let l = locale_json(text, Json::Number(JsonNumber::Signed(-8)));
    let lang = member(&l, "language");
    assert_eq!(member(lang, "name"), &s("en-US"));
    assert_eq!(member(lang, "iso_three_letter"), &s("eng"));
    let tz = member(&l, "timezone");
    assert_eq!(member(tz, "utc_offset_hours"), &Json::Number(JsonNumber::Signed(-8)));
    assert_eq!(member(tz, "daylight_saving"), &Json::Bool(true));
    assert_eq!(member(member(&l, "region"), "country_code"), &s("US"));
    let bare = locale_json("", Json::Null);
    assert_eq!(member(member(&bare, "language"), "name"), &s(""));
    assert_eq!(member(member(&bare, "timezone"), "daylight_saving"), &Json::Bool(false));
}

#[test]
fn battery_report() {
    assert_eq!(battery_json("NoBattery=true\n", Json::Null), Json::Null);
    let text = "Name=Primary\nDeviceID=BAT0\nDesignCapacity=50000\nFullChargeCapacity=45000\nChemistry=6\nStatus=OK\nEstimatedChargeRemaining=80\nEstimatedRunTime=71582788\nBatteryStatus=2\n";
    assert_eq!(battery_capacities(text), (Some(50000), Some(45000)));
    let b = battery_json(text, s("health"));
    assert_eq!(member(&b, "name"), &s("Primary"));
    assert_eq!(member(&b, "design_capacity_mwh"), &n(50000));
    assert_eq!(member(&b, "health_percent"), &s("health"));
    assert_eq!(member(&b, "design_voltage_mv"), &Json::Null);
    assert_eq!(member(&b, "chemistry"), &s("Lithium-ion"));
    assert_eq!(member(&b, "estimated_charge_percent"), &n(80));
    assert_eq!(member(&b, "estimated_runtime_minutes"), &n(71582788));
    assert_eq!(member(&b, "battery_status_code"), &n(2));
    let odd = battery_json("Chemistry=99\nEstimatedChargeRemaining=70000\n", Json::Null);
    assert_eq!(member(&odd, "chemistry"), &s("Unknown"));
    assert_eq!(member(&odd, "estimated_charge_percent"), &Json::Null);
}

#[test]
fn memory_modules_report() {
    let text = "SlotsTotal=4\nSlotsUsed=2\nBEGIN_STICK\nCapacity=17179869184\nSpeed=3200\nConfiguredClockSpeed=2933\nFormFactor=12\nMemoryType=34\nManufacturer= Samsung \nPartNumber=\nBankLabel=BANK 0\nDataWidth=64\nEND_STICK\nCapacity=1\nBEGIN_STICK\nFormFactor=99\nEND_STICK\n";
    let r = ram_hardware_json(text);
    assert_eq!(member(&r, "slots_total"), &n(4));
    assert_eq!(member(&r, "slots_used"), &n(2));
    assert_eq!(member(&r, "speed_mhz"), &n(2933));
    assert_eq!(member(&r, "form_factor"), &s("SODIMM"));
    assert_eq!(member(&r, "memory_type"), &s("DDR5"));
    let sticks = items(member(&r, "sticks"));
    assert_eq!(sticks.len(), 2);
    assert_eq!(member(&sticks[0], "capacity_bytes"), &n(17179869184));
    assert_eq!(member(&sticks[0], "manufacturer"), &s("Samsung"));
    assert_eq!(member(&sticks[0], "part_number"), &Json::Null);
    assert_eq!(member(&sticks[0], "bank_label"), &s("BANK 0"));
    assert_eq!(member(&sticks[0], "total_width_bits"), &Json::Null);
    assert_eq!(member(&sticks[1], "form_factor"), &s("Unknown"));
    assert_eq!(member(&sticks[1], "memory_type"), &s("Unknown"));
    assert_eq!(member(&sticks[1], "capacity_bytes"), &Json::Null);
    let none = ram_hardware_json("");
    assert_eq!(member(&none, "speed_mhz"), &Json::Null);
    assert!(items(member(&none, "sticks")).is_empty());
}

#[test]
fn memory_counters_report() {
    let text = "TotalVisibleMemorySize=16000000\nCommittedBytes=1000\nCacheBytes=2000\nTotalPhysicalMemory=17179869184\nCompressedPages=12.5\n";
    assert_eq!(visible_memory_kb(text), Some(16000000));
    assert_eq!(compressed_pages_text(text), Some("12.5".to_string()));
    let c = memory_counters_json(text, 0, n(49152));
    assert_eq!(member(&c, "hardware_reserved_bytes"), &n(17179869184 - 16000000 * 1024));
    assert_eq!(member(&c, "committed_bytes"), &n(1000));
    assert_eq!(member(&c, "commit_limit_bytes"), &Json::Null);
    assert_eq!(member(&c, "cached_bytes"), &n(2000));
    assert_eq!(member(&c, "compressed_bytes"), &n(49152));
    let by_total = memory_counters_json("TotalPhysicalMemory=100\n", 40, Json::Null);
    assert_eq!(member(&by_total, "hardware_reserved_bytes"), &n(60));
    let none = memory_counters_json("TotalPhysicalMemory=100\n", 400, Json::Null);
    assert_eq!(member(&none, "hardware_reserved_bytes"), &Json::Null);
}

#[test]
fn processor_details_report() {
    let c = cpu_details_json("MaxClockSpeed=3600\nSocketDesignation=AM4\nL2CacheSize=4096\nVirtualizationFirmwareEnabled=FALSE\nVMMonitorModeExtensions=True\nManufacturer=AuthenticAMD\nStepping=\n");
    assert_eq!(member(&c, "base_frequency_mhz"), &n(3600));
    assert_eq!(member(&c, "max_frequency_mhz"), &n(3600));
    assert_eq!(member(&c, "sockets"), &n(1));
    assert_eq!(member(&c, "socket_designation"), &s("AM4"));
    assert_eq!(member(&c, "l2_cache_kb"), &n(4096));
    assert_eq!(member(&c, "l3_cache_kb"), &Json::Null);
    assert_eq!(member(&c, "virtualization"), &s("Enabled"));
    assert_eq!(member(&c, "stepping"), &s(""));
    assert_eq!(member(&cpu_details_json("VirtualizationFirmwareEnabled=false\nSockets=2\n"), "virtualization"), &s("Disabled"));
    assert_eq!(member(&cpu_details_json("Sockets=2\n"), "sockets"), &n(2));
    assert_eq!(member(&cpu_details_json(""), "virtualization"), &Json::Null);
}

#[test]
fn bluetooth_adapter_report() {
    let a = bluetooth_adapter_json("Name=Intel Wireless Bluetooth\nStatus=OK\nInstanceId=USB\\VID\nPresent=true\n");
    assert_eq!(member(&a, "present"), &Json::Bool(true));
    assert_eq!(member(&a, "name"), &s("Intel Wireless Bluetooth"));
    assert_eq!(member(&a, "instance_id"), &s("USB\\VID"));
    let none = bluetooth_adapter_json("Present=false\n");
    assert_eq!(member(&none, "present"), &Json::Bool(false));
    assert_eq!(member(&none, "name"), &Json::Null);
}

#[test]
fn physical_disks_report() {
    let text = "BEGIN_DISK\nModel=Fast SSD\nMediaType=SSD\nBusType=NVMe\nSerialNumber= S123 \nSize=1000204886016\nHealthStatus=Healthy\nDiskNumber=0\nDriveLetters=C:, D:,,\nSystemDisk=False\nSystemDisk=True\nPageFileDisk=true\nEND_DISK\nBEGIN_DISK\nMediaType=HDD\nEND_DISK\n";
    let disks = physical_disks_json(text);
    assert_eq!(disks.len(), 1);
    let d = &disks[0];
    assert_eq!(member(d, "model"), &s("Fast SSD"));
    assert_eq!(member(d, "bus_type"), &s("NVMe"));
    assert_eq!(member(d, "serial_number"), &s("S123"));
    assert_eq!(member(d, "firmware_version"), &Json::Null);
    assert_eq!(member(d, "capacity_bytes"), &n(1000204886016));
    assert_eq!(member(d, "disk_number"), &n(0));
    assert_eq!(member(d, "drive_letters"), &Json::Array(vec![s("C:"), s("D:")]));
    assert_eq!(member(d, "system_disk"), &Json::Bool(true));
    assert_eq!(member(d, "page_file_disk"), &Json::Bool(true));
    assert!(physical_disks_json("Model=outside\n").is_empty());
}

#[test]
fn wifi_adapters_report() {
    let text = "BEGIN_IFACE\nName=Wi-Fi\nDescription=Intel AX200\nStatus=Up\nMacAddress=AA-BB\nLinkSpeed=866.7 Mbps\nMediaType=Native 802.11\nEND_IFACE\nBEGIN_IFACE\nStatus=Down\nEND_IFACE\n";
    let ifaces = wifi_interfaces_json(text);
    assert_eq!(ifaces.len(), 1);
    assert_eq!(member(&ifaces[0], "name"), &s("Wi-Fi"));
    assert_eq!(member(&ifaces[0], "link_speed"), &s("866.7 Mbps"));
    assert_eq!(member(&ifaces[0], "media_type"), &s("Native 802.11"));
}

#[test]
fn video_controllers_report() {
    let text = "Name=GeForce RTX\nAdapterRAM=4293918720\nDriverVersion=31.0\nDriverDate=\nPNPDeviceID=PCI\\VEN_10DE\nAdapterCompatibility=NVIDIA\nCurrentHorizontalResolution=2560\nCurrentVerticalResolution=1440\nCurrentRefreshRate=144\nStatus=OK\nLocationInformation=PCI bus 1, device 0, function 0\n\nName=\nStatus=OK\n\nName=Basic Display\nCurrentHorizontalResolution=1024\n";
    let ads = gpu_adapters_json(text);
    assert_eq!(ads.len(), 2);
    let a = &ads[0];
    assert_eq!(member(a, "name"), &s("GeForce RTX"));
    assert_eq!(member(a, "adapter_ram_bytes"), &n(4293918720));
    assert_eq!(member(a, "driver_version"), &s("31.0"));
    assert_eq!(member(a, "driver_date"), &Json::Null);
    assert_eq!(member(a, "manufacturer"), &s("NVIDIA"));
    assert_eq!(member(a, "current_resolution"), &s("2560x1440"));
    assert_eq!(member(a, "current_refresh_rate_hz"), &n(144));
    assert_eq!(member(a, "source"), &s("cim"));
    assert_eq!(member(a, "pnp_device_id"), &s("PCI\\VEN_10DE"));
    let loc = member(a, "physical_location");
    assert_eq!(member(loc, "bus"), &n(1));
    assert_eq!(member(loc, "device"), &n(0));
    assert_eq!(member(loc, "function"), &n(0));
    assert_eq!(member(loc, "description"), &s("PCI bus 1, device 0, function 0"));
    let b = &ads[1];
    assert_eq!(member(b, "name"), &s("Basic Display"));
    assert_eq!(member(b, "current_resolution"), &Json::Null);
    assert_eq!(member(b, "physical_location"), &Json::Null);
}

#[test]
fn connected_wifi_report() {
    let text = "    Name                   : Wi-Fi\r\n    State                  : connected\r\n    SSID                   : HomeNet\r\n    BSSID                  : aa:bb:cc:dd:ee:ff\r\n    Radio type             : 802.11ax\r\n    Authentication         : WPA2-Personal\r\n    Channel                : 36\r\n    Receive rate (Mbps)    : 1200.5\r\n    Transmit rate (Mbps)   : 960 Mbps\r\n    Signal                 : 87%\r\n    Profile                : HomeNet\r\n";
    assert_eq!(wifi_rate_texts(text), (Some("1200.5".to_string()), Some("960".to_string())));
    let w = wifi_connected_json(text, s("rx"), s("tx"));
    assert_eq!(member(&w, "is_connected"), &Json::Bool(true));
    assert_eq!(member(&w, "ssid"), &s("HomeNet"));
    assert_eq!(member(&w, "bssid"), &s("aa:bb:cc:dd:ee:ff"));
    assert_eq!(member(&w, "signal_percent"), &n(87));
    assert_eq!(member(&w, "signal_quality"), &s("excellent"));
    assert_eq!(member(&w, "band"), &s("5 GHz"));
    assert_eq!(member(&w, "channel"), &n(36));
    assert_eq!(member(&w, "cipher"), &Json::Null);
    assert_eq!(member(&w, "receive_rate_mbps"), &s("rx"));
    assert_eq!(member(&w, "interface_name"), &s("Wi-Fi"));
    assert_eq!(member(&w, "state"), &s("connected"));
    let off = wifi_connected_json("State : disconnected\nSSID : \nSSID : Second\nRadio type : 802.11g\nSignal : 30%\n", Json::Null, Json::Null);
    assert_eq!(member(&off, "is_connected"), &Json::Bool(false));
    assert_eq!(member(&off, "ssid"), &s("Second"));
    assert_eq!(member(&off, "band"), &s("2.4 GHz"));
    assert_eq!(member(&off, "signal_quality"), &s("weak"));
    let n_band = wifi_connected_json("Radio type : 802.11n\nBand : \n", Json::Null, Json::Null);
    assert_eq!(member(&n_band, "band"), &s("2.4 GHz or 5 GHz"));
}

#[test]
fn volumes_find_their_disks() {
    let disks = physical_disks_json(
        "BEGIN_DISK\nModel=Disk A\nDriveLetters=D:\nEND_DISK\nBEGIN_DISK\nModel=Disk B\nSize=500\nDriveLetters=c:,E:\nSystemDisk=true\nEND_DISK\n",
    );
    assert_eq!(physical_disk_for(&disks, "C:\\"), Some(1));
    assert_eq!(physical_disk_for(&disks, "d:/"), Some(0));
    assert_eq!(physical_disk_for(&disks, "/mnt/data"), None);
    let mut entry = vec![("name".to_string(), s("vol")), ("model".to_string(), s("old"))];
    attach_disk_fields(&mut entry, &disks[1]);
    let e = Json::Object(entry);
    assert_eq!(member(&e, "name"), &s("vol"));
    assert_eq!(member(&e, "model"), &s("Disk B"));
    assert_eq!(member(&e, "physical_capacity_bytes"), &n(500));
    assert_eq!(member(&e, "system_disk"), &Json::Bool(true));
    assert_eq!(member(&e, "media_type"), &Json::Null);
    match &e {
        Json::Object(ms) => assert!(ms.iter().all(|(k, _)| k != "capacity_bytes" && k != "drive_letters")),
        _ => unreachable!(),
    }
}

#[test]
fn power_status_flags_are_decoded() {
    let st = PowerStatus {
        ac_line: 1,
        battery_flag: 8 | 1,
        life_percent: 87,
        life_seconds: u32::MAX,
        full_life_seconds: 7200,
        saver: 0,
    };
    let r = power_status_json(&st, Json::Null, s("Balanced"));
    let battery = Json::Object(vec![
        ("present".to_string(), Json::Bool(true)),
        ("percent".to_string(), Json::Number(JsonNumber::Unsigned(87))),
        ("charging".to_string(), Json::Bool(true)),
        ("critical".to_string(), Json::Bool(false)),
        ("low".to_string(), Json::Bool(false)),
        ("high".to_string(), Json::Bool(true)),
        ("lifetime_seconds".to_string(), Json::Null),
        ("fulllife_seconds".to_string(), Json::Number(JsonNumber::Unsigned(7200))),
        ("saver_active".to_string(), Json::Bool(false)),
        ("details".to_string(), Json::Null),
    ]);
    assert_eq!(
        r,
        Json::Object(vec![
            ("ac_status".to_string(), s("online")),
            ("battery".to_string(), battery),
            ("power_plan".to_string(), s("Balanced")),
        ])
    );
    let none = PowerStatus { ac_line: 255, battery_flag: 128, life_percent: 255, life_seconds: 0, full_life_seconds: 0, saver: 1 };
    let r = power_status_json(&none, Json::Null, Json::Null);
    match r {
        Json::Object(ms) => {
            assert_eq!(ms[0].1, s("unknown"));
            match &ms[1].1 {
                Json::Object(b) => {
                    assert_eq!(b[0].1, Json::Bool(false));
                    assert_eq!(b[1].1, Json::Null);
                    assert_eq!(b[6].1, Json::Number(JsonNumber::Unsigned(0)));
                    assert_eq!(b[8].1, Json::Bool(true));
                },
                _ => panic!("battery is not an object"),
            }
        },
        _ => panic!("not an object"),
    }
}
