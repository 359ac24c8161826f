//! Figures the CPU, memory, process and network readings derive from what
//! the system reports: processes ranked by memory, their states counted,
//! memory added up, the mean core frequency, which temperature sensors are
//! the CPU's, and the traffic of the network interfaces.
use vstd::prelude::*;
use crate::order::{sort_by, size_desc, index_seq, index_vec, sort_indices_by_size_desc, lemma_sort_by_multiset};
use crate::text::{chars_of, lower_seq, lower_chars, contains_seq, chars_contains_seq, clone_string};
use crate::json::{Json, JsonV, JsonNumber, NumberV, view_items, view_members, push_member, push_item};

verus! {

/// A process's scheduling state, as the status breakdown groups it.
#[derive(Clone, Copy, Debug, PartialEq, Eq, Structural)]
pub enum ProcessState {
    Running,
    Sleeping,
    Stopped,
    Zombie,
    Other,
}

/// How many processes are in each state.
#[derive(Debug)]
pub struct StatusCounts {
    pub running: u32,
    pub sleeping: u32,
    pub stopped: u32,
    pub zombie: u32,
    pub other: u32,
}

/// The number of entries of `s` equal to `k`.
pub open spec fn count_state(s: Seq<ProcessState>, k: ProcessState) -> nat
    decreases s.len(),
{
    if s.len() == 0 {
        0
    } else {
        count_state(s.drop_last(), k) + if s.last() == k { 1nat } else { 0nat }
    }
}

proof fn lemma_count_state_bound(s: Seq<ProcessState>, k: ProcessState)
    ensures
        count_state(s, k) <= s.len(),
    decreases s.len(),
{
    if s.len() > 0 {
        lemma_count_state_bound(s.drop_last(), k);
    }
}

/// Counts the processes in each state.
pub fn status_counts(states: &Vec<ProcessState>) -> (r: StatusCounts)
    requires
        states.len() <= u32::MAX,
    ensures
        r.running == count_state(states@, ProcessState::Running),
        r.sleeping == count_state(states@, ProcessState::Sleeping),
        r.stopped == count_state(states@, ProcessState::Stopped),
        r.zombie == count_state(states@, ProcessState::Zombie),
        r.other == count_state(states@, ProcessState::Other),
{
    let mut c = StatusCounts { running: 0, sleeping: 0, stopped: 0, zombie: 0, other: 0 };
    for i in 0..states.len()
        invariant
            states.len() <= u32::MAX,
            c.running == count_state(states@.take(i as int), ProcessState::Running),
            c.sleeping == count_state(states@.take(i as int), ProcessState::Sleeping),
            c.stopped == count_state(states@.take(i as int), ProcessState::Stopped),
            c.zombie == count_state(states@.take(i as int), ProcessState::Zombie),
            c.other == count_state(states@.take(i as int), ProcessState::Other),
    {
        let ghost t = states@.take(i + 1);
        proof {
            assert(t.drop_last() =~= states@.take(i as int));
            assert(t.last() == states@[i as int]);
            lemma_count_state_bound(t, states@[i as int]);
        }
        match states[i] {
            ProcessState::Running => c.running = c.running + 1,
            ProcessState::Sleeping => c.sleeping = c.sleeping + 1,
            ProcessState::Stopped => c.stopped = c.stopped + 1,
            ProcessState::Zombie => c.zombie = c.zombie + 1,
            ProcessState::Other => c.other = c.other + 1,
        }
    }
    assert(states@.take(states.len() as int) =~= states@);
    c
}

/// The indices of the processes with the most memory, most first, at most
/// `limit` of them; processes with equal memory keep their order.
pub open spec fn top_by_memory_spec(memory: Seq<u64>, limit: nat) -> Seq<usize> {
    let order = sort_by(index_seq(memory.len()), size_desc(memory));
    if limit < order.len() {
        order.take(limit as int)
    } else {
        order
    }
}

/// Ranks processes by their memory and keeps the first `limit`.
pub fn top_by_memory(memory: &Vec<u64>, limit: usize) -> (r: Vec<usize>)
    ensures
        r@ == top_by_memory_spec(memory@, limit as nat),
{
    let all = index_vec(memory.len());
    let sorted = sort_indices_by_size_desc(&all, memory);
    proof {
        lemma_sort_by_multiset(all@, size_desc(memory@));
    }
    let n = if limit < sorted.len() { limit } else { sorted.len() };
    let mut out: Vec<usize> = Vec::new();
    for i in 0..n
        invariant
            n <= sorted.len(),
            out@ == sorted@.take(i as int),
    {
        out.push(sorted[i]);
        assert(out@ =~= sorted@.take(i + 1));
    }
    assert(sorted@.take(sorted.len() as int) =~= sorted@);
    out
}

/// The sum of the values.
pub open spec fn total(s: Seq<u64>) -> int
    decreases s.len(),
{
    if s.len() == 0 {
        0
    } else {
        total(s.drop_last()) + s.last()
    }
}

proof fn lemma_total_prefix(s: Seq<u64>, i: int)
    requires
        0 <= i <= s.len(),
    ensures
        0 <= total(s.take(i)) <= total(s),
    decreases s.len(),
{
    if s.len() > 0 {
        if i == s.len() {
            assert(s.take(i) =~= s);
            lemma_total_prefix(s.drop_last(), i - 1);
            assert(s.drop_last().take(i - 1) =~= s.drop_last());
        } else {
            assert(s.drop_last().take(i) =~= s.take(i));
            lemma_total_prefix(s.drop_last(), i);
        }
    } else {
        assert(s.take(i) =~= s);
    }
}

fn sum_of(values: &Vec<u64>) -> (r: u64)
    requires
        total(values@) <= u64::MAX,
    ensures
        r == total(values@),
{
    let mut sum: u64 = 0;
    for i in 0..values.len()
        invariant
            total(values@) <= u64::MAX,
            sum == total(values@.take(i as int)),
    {
        proof {
            assert(values@.take(i + 1).drop_last() =~= values@.take(i as int));
            lemma_total_prefix(values@, i + 1);
        }
        sum = sum + values[i];
    }
    assert(values@.take(values.len() as int) =~= values@);
    sum
}

/// The memory all processes use together.
pub fn total_memory(memory: &Vec<u64>) -> (r: u64)
    requires
        total(memory@) <= u64::MAX,
    ensures
        r == total(memory@),
{
    sum_of(memory)
}

/// The mean of the cores' frequencies, rounded down; 0 with no cores.
pub fn mean_frequency(frequencies: &Vec<u64>) -> (r: u64)
    requires
        total(frequencies@) <= u64::MAX,
    ensures
        frequencies.len() == 0 ==> r == 0,
        frequencies.len() > 0 ==> r == total(frequencies@) / frequencies.len() as int,
{
    if frequencies.len() == 0 {
        0
    } else {
        let sum = sum_of(frequencies);
        sum / (frequencies.len() as u64)
    }
}

/// A sensor is the CPU's when its label, lower-cased, names the CPU, its
/// package, a core, or AMD's `tctl`/`tdie` readings.
pub open spec fn is_cpu_sensor_spec(label: Seq<char>) -> bool {
    let l = lower_seq(label);
    ||| contains_seq(l, "cpu"@)
    ||| contains_seq(l, "package"@)
    ||| contains_seq(l, "core"@)
    ||| contains_seq(l, "tctl"@)
    ||| contains_seq(l, "tdie"@)
}

/// Whether a temperature sensor, by its label, is the CPU's.
pub fn is_cpu_sensor(label: &str) -> (r: bool)
    ensures
        r == is_cpu_sensor_spec(label@),
{
    let l = lower_chars(&chars_of(label));
    chars_contains_seq(&l, &chars_of("cpu"))
        || chars_contains_seq(&l, &chars_of("package"))
        || chars_contains_seq(&l, &chars_of("core"))
        || chars_contains_seq(&l, &chars_of("tctl"))
        || chars_contains_seq(&l, &chars_of("tdie"))
}


/// One network interface's traffic: bytes since the last refresh and in all.
pub struct InterfaceTraffic {
    pub name: String,
    pub received: u64,
    pub transmitted: u64,
    pub total_received: u64,
    pub total_transmitted: u64,
}

pub struct InterfaceTrafficV {
    pub name: Seq<char>,
    pub received: u64,
    pub transmitted: u64,
    pub total_received: u64,
    pub total_transmitted: u64,
}

impl InterfaceTraffic {
    pub open spec fn view(&self) -> InterfaceTrafficV {
        InterfaceTrafficV {
            name: self.name@,
            received: self.received,
            transmitted: self.transmitted,
            total_received: self.total_received,
            total_transmitted: self.total_transmitted,
        }
    }
}

pub open spec fn traffic_views(s: Seq<InterfaceTraffic>) -> Seq<InterfaceTrafficV> {
    s.map_values(|t: InterfaceTraffic| t.view())
}

pub open spec fn unsigned(n: u64) -> JsonV {
    JsonV::Number(NumberV::Unsigned(n))
}

/// The sum of the values, held at `u64::MAX` once it reaches it.
pub open spec fn saturating_total(s: Seq<u64>) -> u64
    decreases s.len(),
{
    if s.len() == 0 {
        0
    } else {
        let t = saturating_total(s.drop_last()) + s.last();
        if t > u64::MAX { u64::MAX } else { t as u64 }
    }
}

pub open spec fn interface_json(t: InterfaceTrafficV) -> JsonV {
    JsonV::Object(seq![
        ("interface"@, JsonV::Str(t.name)),
        ("received_bytes"@, unsigned(t.received)),
        ("transmitted_bytes"@, unsigned(t.transmitted)),
        ("total_received_bytes"@, unsigned(t.total_received)),
        ("total_transmitted_bytes"@, unsigned(t.total_transmitted)),
    ])
}

/// The network reading: the bytes received and sent since the last refresh
/// over all interfaces (added up, held at `u64::MAX`), and each interface.
pub open spec fn network_json_spec(ts: Seq<InterfaceTrafficV>) -> JsonV {
    JsonV::Object(seq![
        ("received_bytes"@, unsigned(saturating_total(ts.map_values(|t: InterfaceTrafficV| t.received)))),
        ("transmitted_bytes"@, unsigned(saturating_total(ts.map_values(|t: InterfaceTrafficV| t.transmitted)))),
        ("interfaces"@, JsonV::Array(ts.map_values(|t: InterfaceTrafficV| interface_json(t)))),
    ])
}

fn interface_json_of(t: &InterfaceTraffic) -> (r: Json)
    ensures
        r.view() == interface_json(t.view()),
{
    let mut ms: Vec<(String, Json)> = Vec::new();
    push_member(&mut ms, "interface", Json::Str(clone_string(&t.name)));
    push_member(&mut ms, "received_bytes", Json::Number(JsonNumber::Unsigned(t.received)));
    push_member(&mut ms, "transmitted_bytes", Json::Number(JsonNumber::Unsigned(t.transmitted)));
    push_member(&mut ms, "total_received_bytes", Json::Number(JsonNumber::Unsigned(t.total_received)));
    push_member(&mut ms, "total_transmitted_bytes", Json::Number(JsonNumber::Unsigned(t.total_transmitted)));
    assert(view_members(ms@) =~= seq![
        ("interface"@, JsonV::Str(t.name@)),
        ("received_bytes"@, unsigned(t.received)),
        ("transmitted_bytes"@, unsigned(t.transmitted)),
        ("total_received_bytes"@, unsigned(t.total_received)),
        ("total_transmitted_bytes"@, unsigned(t.total_transmitted)),
    ]);
    Json::Object(ms)
}

/// The network reading of the interfaces' traffic.
pub fn network_json(interfaces: &Vec<InterfaceTraffic>) -> (r: Json)
    ensures
        r.view() == network_json_spec(traffic_views(interfaces@)),
{
    let ghost tv = traffic_views(interfaces@);
    let mut rx: u64 = 0;
    let mut tx: u64 = 0;
    let mut items: Vec<Json> = Vec::new();
    for i in 0..interfaces.len()
        invariant
            tv == traffic_views(interfaces@),
            tv.len() == interfaces.len(),
            rx == saturating_total(tv.take(i as int).map_values(|t: InterfaceTrafficV| t.received)),
            tx == saturating_total(tv.take(i as int).map_values(|t: InterfaceTrafficV| t.transmitted)),
            view_items(items@) == tv.take(i as int).map_values(|t: InterfaceTrafficV| interface_json(t)),
    {
        let t = &interfaces[i];
        assert(tv[i as int] == t.view());
        let ghost rs = tv.take(i + 1).map_values(|t: InterfaceTrafficV| t.received);
        let ghost ts = tv.take(i + 1).map_values(|t: InterfaceTrafficV| t.transmitted);
        assert(rs.drop_last() =~= tv.take(i as int).map_values(|t: InterfaceTrafficV| t.received));
        assert(ts.drop_last() =~= tv.take(i as int).map_values(|t: InterfaceTrafficV| t.transmitted));
        rx = rx.saturating_add(t.received);
        tx = tx.saturating_add(t.transmitted);
        push_item(&mut items, interface_json_of(t));
        assert(tv.take(i + 1).map_values(|t: InterfaceTrafficV| interface_json(t)) =~= tv.take(i as int).map_values(
            |t: InterfaceTrafficV| interface_json(t),
        ).push(interface_json(tv[i as int])));
    }
    assert(tv.take(interfaces.len() as int) =~= tv);
    let mut ms: Vec<(String, Json)> = Vec::new();
    push_member(&mut ms, "received_bytes", Json::Number(JsonNumber::Unsigned(rx)));
    push_member(&mut ms, "transmitted_bytes", Json::Number(JsonNumber::Unsigned(tx)));
    push_member(&mut ms, "interfaces", Json::Array(items));
    assert(view_members(ms@) =~= seq![
        ("received_bytes"@, unsigned(rx)),
        ("transmitted_bytes"@, unsigned(tx)),
        ("interfaces"@, JsonV::Array(tv.map_values(|t: InterfaceTrafficV| interface_json(t)))),
    ]);
    Json::Object(ms)
}


/// How many processes the memory reading lists, most memory first.
pub const RAM_TOP_PROCESSES: usize = 10;

/// How many processes the process reading lists in each ranking (by CPU,
/// by memory).
pub const TOP_PROCESSES: usize = 15;

/// The processes the memory reading lists: the 10 with the most memory.
pub fn ram_top_processes(memory: &Vec<u64>) -> (r: Vec<usize>)
    ensures
        r@ == top_by_memory_spec(memory@, 10),
{
    top_by_memory(memory, RAM_TOP_PROCESSES)
}

/// The processes the process reading lists by memory: the 15 with the most.
pub fn top_processes_by_memory(memory: &Vec<u64>) -> (r: Vec<usize>)
    ensures
        r@ == top_by_memory_spec(memory@, 15),
{
    top_by_memory(memory, TOP_PROCESSES)
}

} // verus!
