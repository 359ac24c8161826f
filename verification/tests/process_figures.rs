use veil_core::stats::{ram_top_processes, top_processes_by_memory};
use veil_core::clock::{am_pm, hour_12, millisecond, quarter};
use veil_core::json::{Json, JsonNumber};
use veil_core::stats::{
    is_cpu_sensor, mean_frequency, network_json, status_counts, top_by_memory, total_memory, InterfaceTraffic,
    ProcessState,
};

fn member<'a>(j: &'a Json, key: &str) -> &'a Json {
    match j {
        Json::Object(ms) => &ms.iter().find(|(k, _)| k == key).unwrap().1,
        _ => panic!("not an object"),
    }
}

fn unsigned(j: &Json) -> u64 {
    match j {
        Json::Number(JsonNumber::Unsigned(n)) => *n,
        _ => panic!("not an unsigned number"),
    }
}

fn iface(name: &str, rx: u64, tx: u64) -> InterfaceTraffic {
    InterfaceTraffic {
        name: name.to_string(),
        received: rx,
        transmitted: tx,
        total_received: rx.saturating_mul(10),
        total_transmitted: tx.saturating_mul(10),
    }
}

#[test]
fn states_are_counted() {
    let states = vec![
        ProcessState::Running,
        ProcessState::Sleeping,
        ProcessState::Running,
        ProcessState::Zombie,
        ProcessState::Other,
        ProcessState::Stopped,
        ProcessState::Sleeping,
        ProcessState::Sleeping,
    ];
    let c = status_counts(&states);
    assert_eq!((c.running, c.sleeping, c.stopped, c.zombie, c.other), (2, 3, 1, 1, 1));
    let none = status_counts(&Vec::new());
    assert_eq!((none.running, none.sleeping, none.stopped, none.zombie, none.other), (0, 0, 0, 0, 0));
}

#[test]
fn processes_are_ranked_by_memory_keeping_ties_in_order() {
    let memory = vec![5, 9, 5, 1, 9];
    assert_eq!(top_by_memory(&memory, 3), vec![1, 4, 0]);
    assert_eq!(top_by_memory(&memory, 10), vec![1, 4, 0, 2, 3]);
    assert_eq!(top_by_memory(&memory, 0), Vec::<usize>::new());
    assert_eq!(top_by_memory(&Vec::new(), 15), Vec::<usize>::new());
}

#[test]
fn memory_is_added_up_and_frequencies_averaged() {
    assert_eq!(total_memory(&vec![1, 2, 3]), 6);
    assert_eq!(total_memory(&Vec::new()), 0);
    assert_eq!(mean_frequency(&vec![3000, 3601]), 3300);
    assert_eq!(mean_frequency(&vec![4200]), 4200);
    assert_eq!(mean_frequency(&Vec::new()), 0);
}

#[test]
fn cpu_sensors_are_told_by_their_labels() {
    assert!(is_cpu_sensor("CPU Package"));
    assert!(is_cpu_sensor("Tctl"));
    assert!(is_cpu_sensor("coretemp Core 0"));
    assert!(is_cpu_sensor("k10temp TDIE"));
    assert!(is_cpu_sensor("Intel Package id 0"));
    assert!(!is_cpu_sensor("GPU"));
    assert!(!is_cpu_sensor("Composite"));
    assert!(!is_cpu_sensor(""));
}

#[test]
fn clock_fields() {
    assert_eq!(quarter(1), 1);
    assert_eq!(quarter(3), 1);
    assert_eq!(quarter(4), 2);
    assert_eq!(quarter(9), 3);
    assert_eq!(quarter(12), 4);
    assert_eq!(hour_12(0), 12);
    assert_eq!(hour_12(11), 11);
    assert_eq!(hour_12(12), 12);
    assert_eq!(hour_12(13), 1);
    assert_eq!(hour_12(23), 11);
    assert_eq!(am_pm(0), "AM");
    assert_eq!(am_pm(11), "AM");
    assert_eq!(am_pm(12), "PM");
    assert_eq!(am_pm(23), "PM");
}

#[test]
fn milliseconds_keep_the_sign_of_the_time() {
    assert_eq!(millisecond(1_700_000_000_123), 123);
    assert_eq!(millisecond(0), 0);
    assert_eq!(millisecond(999), 999);
    assert_eq!(millisecond(-1), -1);
    assert_eq!(millisecond(-1000), 0);
    assert_eq!(millisecond(-1001), -1);
    assert_eq!(millisecond(i64::MIN), i64::MIN % 1000);
    assert_eq!(millisecond(i64::MAX), i64::MAX % 1000);
}

#[test]
fn network_traffic_is_added_up_per_interface() {
    let r = network_json(&vec![iface("eth0", 100, 40), iface("wlan0", 5, 6)]);
    assert_eq!(unsigned(member(&r, "received_bytes")), 105);
    assert_eq!(unsigned(member(&r, "transmitted_bytes")), 46);
    match member(&r, "interfaces") {
        Json::Array(items) => {
            assert_eq!(items.len(), 2);
            assert!(matches!(member(&items[0], "interface"), Json::Str(s) if s == "eth0"));
            assert_eq!(unsigned(member(&items[1], "received_bytes")), 5);
            assert_eq!(unsigned(member(&items[1], "total_transmitted_bytes")), 60);
        },
        _ => panic!("interfaces is not an array"),
    }
    let big = network_json(&vec![iface("a", u64::MAX - 1, 0), iface("b", 5, 0)]);
    assert_eq!(unsigned(member(&big, "received_bytes")), u64::MAX);
    let none = network_json(&Vec::new());
    assert_eq!(unsigned(member(&none, "received_bytes")), 0);
}

#[test]
fn readings_list_their_top_processes() {
    let memory: Vec<u64> = (0..20).collect();
    let ram = ram_top_processes(&memory);
    assert_eq!(ram, (10..20).rev().collect::<Vec<usize>>());
    let top = top_processes_by_memory(&memory);
    assert_eq!(top.len(), 15);
    assert_eq!(top[0], 19);
    assert_eq!(top[14], 5);
}
