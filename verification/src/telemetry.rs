//! System telemetry: CPU, memory, disks, network interfaces, fans and
//! processes, read from the files under `/proc` and `/sys` and the output of
//! `ip`. Rates and percentages are left to the caller.
use vstd::prelude::*;
use std::collections::HashMap;
use crate::text::{
    append, append_str, chars_of, contains, contains_str, decimal, decimal_of, eq_str,
    lemma_split_nonempty, lines, lines_of, parse_uint, parse_unsigned, split, split_on,
    split_once, split_once_exec, split_ws, starts_with, starts_with_str, string_from, string_of,
    string_views, trim, trim_char_end, trimmed, views, words, find_char, is_first, copy_of, find_str, slice_of, parse_int, parse_signed,
};

verus! {

// CPU Telemetry

#[derive(Debug, Clone)]
pub struct CpuInfo {
    pub model: String,
    pub cores_physical: u32,
    pub cores_logical: u32,
    pub architecture: String,
}

#[derive(Debug, Clone)]
pub struct CpuFrequency {
    pub current_mhz: u32,
    pub min_mhz: u32,
    pub max_mhz: u32,
    pub per_core_mhz: Vec<u32>,
}

// Memory Telemetry

/// Memory and swap in bytes.
#[derive(Debug, Clone, Copy, PartialEq, Eq, Structural)]
pub struct MemoryInfo {
    pub total_bytes: u64,
    pub available_bytes: u64,
    pub used_bytes: u64,
    pub buffers_bytes: u64,
    pub cached_bytes: u64,
    pub swap_total_bytes: u64,
    pub swap_used_bytes: u64,
}

// Disk Telemetry

#[derive(Debug, Clone)]
pub struct DiskIo {
    pub device: String,
    pub read_bytes: u64,
    pub write_bytes: u64,
    pub read_ops: u64,
    pub write_ops: u64,
}

// Network Telemetry

#[derive(Debug, Clone)]
pub struct NetworkInterface {
    pub name: String,
    pub mac_address: Option<String>,
    pub ipv4: Vec<String>,
    pub ipv6: Vec<String>,
    pub is_up: bool,
    pub speed_mbps: Option<u32>,
}

#[derive(Debug, Clone)]
pub struct NetworkIo {
    pub interface: String,
    pub rx_bytes: u64,
    pub tx_bytes: u64,
    pub rx_packets: u64,
    pub tx_packets: u64,
    pub rx_errors: u64,
    pub tx_errors: u64,
}

// Process Telemetry

#[derive(Debug, Clone, Copy, PartialEq, Eq, Structural)]
pub enum ProcessState {
    Running,
    Sleeping,
    Stopped,
    Zombie,
    Unknown,
}

// Sensor Telemetry

#[derive(Debug, Clone)]
pub struct FanSpeed {
    pub label: String,
    pub rpm: u32,
}

// Telemetry Backend

/// The telemetry backend keeps the CPU times of the processes it has seen.
pub struct TelemetryBackend {
    prev_proc_times: HashMap<u32, (u64, u64)>,
}

impl Default for TelemetryBackend {
    fn default() -> (r: Self)
        ensures
            r.process_times() == Map::<u32, (u64, u64)>::empty(),
    {
        Self::new()
    }
}

/// The view of an optional string.
pub open spec fn opt_s(o: Option<&str>) -> Option<Seq<char>> {
    match o {
        Some(s) => Some(s@),
        None => None,
    }
}

/// The view of an optional owned string.
pub open spec fn opt_o(o: Option<String>) -> Option<Seq<char>> {
    match o {
        Some(s) => Some(s@),
        None => None,
    }
}

/// The first line of `ls` that begins with `p`.
pub open spec fn first_with_prefix(ls: Seq<Seq<char>>, p: Seq<char>) -> Option<Seq<char>>
    decreases ls.len(),
{
    if ls.len() == 0 {
        None
    } else if starts_with(ls[0], p) {
        Some(ls[0])
    } else {
        first_with_prefix(ls.drop_first(), p)
    }
}

/// The number of lines of `ls` that begin with `p`.
pub open spec fn count_with_prefix(ls: Seq<Seq<char>>, p: Seq<char>) -> nat
    decreases ls.len(),
{
    if ls.len() == 0 {
        0
    } else {
        count_with_prefix(ls.drop_last(), p) + if starts_with(ls.last(), p) {
            1nat
        } else {
            0nat
        }
    }
}

/// The second colon-separated field of a line, when it has one.
pub open spec fn after_colon(l: Seq<char>) -> Option<Seq<char>> {
    if split(l, ':').len() > 1 {
        Some(split(l, ':')[1])
    } else {
        None
    }
}

/// What `/proc/cpuinfo` says of the processor: the model name, the number
/// of `processor` lines (truncated to 32 bits), and the number of cores,
/// which is the logical count when not given.
pub open spec fn cpu_info_of(ls: Seq<Seq<char>>) -> (Seq<char>, u32, u32) {
    let model = match first_with_prefix(ls, "model name"@) {
        Some(l) => match after_colon(l) {
            Some(v) => trim(v),
            None => "Unknown"@,
        },
        None => "Unknown"@,
    };
    let logical = count_with_prefix(ls, "processor"@) as u32;
    let physical = match first_with_prefix(ls, "cpu cores"@) {
        Some(l) => match after_colon(l) {
            Some(v) => match parse_unsigned(trim(v), 10, u32::MAX as nat) {
                Some(n) => n as u32,
                None => logical,
            },
            None => logical,
        },
        None => logical,
    };
    (model, physical, logical)
}

/// The first line that begins with `p` is the line at `j` when line `j`
/// begins with `p` and none before it does.
proof fn lemma_first_with_prefix_at(ls: Seq<Seq<char>>, p: Seq<char>, j: int)
    requires
        0 <= j < ls.len(),
        starts_with(ls[j], p),
        forall|k: int| 0 <= k < j ==> !starts_with(#[trigger] ls[k], p),
    ensures
        first_with_prefix(ls, p) == Some(ls[j]),
    decreases j,
{
    if j > 0 {
        assert(!starts_with(ls[0], p));
        let d = ls.drop_first();
        assert forall|k: int| 0 <= k < j - 1 implies !starts_with(#[trigger] d[k], p) by {
            assert(d[k] == ls[k + 1]);
        }
        assert(d[j - 1] == ls[j]);
        lemma_first_with_prefix_at(d, p, j - 1);
    }
}

/// No line begins with `p` exactly when there is no first such line.
proof fn lemma_first_with_prefix_none(ls: Seq<Seq<char>>, p: Seq<char>)
    requires
        forall|k: int| 0 <= k < ls.len() ==> !starts_with(#[trigger] ls[k], p),
    ensures
        first_with_prefix(ls, p) is None,
    decreases ls.len(),
{
    if ls.len() > 0 {
        let d = ls.drop_first();
        assert(!starts_with(ls[0], p));
        assert forall|k: int| 0 <= k < d.len() implies !starts_with(#[trigger] d[k], p) by {
            assert(d[k] == ls[k + 1]);
        }
        lemma_first_with_prefix_none(d, p);
    }
}

/// The physical core count is the number given on the first `cpu cores`
/// line of `/proc/cpuinfo`, when that line holds a number after its colon
/// that fits in 32 bits; with no `cpu cores` line it is the logical count.
pub proof fn law_cpu_cores(ls: Seq<Seq<char>>, j: int)
    ensures
        0 <= j < ls.len() && starts_with(ls[j], "cpu cores"@) && (forall|k: int|
            0 <= k < j ==> !starts_with(#[trigger] ls[k], "cpu cores"@)) && split(ls[j], ':').len()
            > 1 && parse_unsigned(trim(split(ls[j], ':')[1]), 10, u32::MAX as nat) is Some
            ==> cpu_info_of(ls).1 as nat == parse_unsigned(
            trim(split(ls[j], ':')[1]),
            10,
            u32::MAX as nat,
        )->Some_0,
        (forall|k: int| 0 <= k < ls.len() ==> !starts_with(#[trigger] ls[k], "cpu cores"@))
            ==> cpu_info_of(ls).1 == cpu_info_of(ls).2,
{
    if 0 <= j < ls.len() && starts_with(ls[j], "cpu cores"@) && (forall|k: int|
        0 <= k < j ==> !starts_with(#[trigger] ls[k], "cpu cores"@)) {
        lemma_first_with_prefix_at(ls, "cpu cores"@, j);
    }
    if forall|k: int| 0 <= k < ls.len() ==> !starts_with(#[trigger] ls[k], "cpu cores"@) {
        lemma_first_with_prefix_none(ls, "cpu cores"@);
    }
}

/// The lines that begin with `p`.
pub open spec fn begins_with(p: Seq<char>) -> spec_fn(Seq<char>) -> bool {
    |l: Seq<char>| starts_with(l, p)
}

/// Counting the lines that begin with `p` gives as many as there are.
proof fn lemma_count_is_filter(ls: Seq<Seq<char>>, p: Seq<char>)
    ensures
        count_with_prefix(ls, p) == ls.filter(begins_with(p)).len(),
    decreases ls.len(),
{
    reveal(Seq::filter);
    if ls.len() > 0 {
        lemma_count_is_filter(ls.drop_last(), p);
    }
}

/// The logical core count is the number of `processor` lines of
/// `/proc/cpuinfo`; the model is the text after the colon of the first
/// `model name` line, trimmed, and "Unknown" when there is no such line.
pub proof fn law_cpu_model_and_count(ls: Seq<Seq<char>>, j: int)
    ensures
        ls.filter(begins_with("processor"@)).len() <= u32::MAX ==> cpu_info_of(ls).2 as nat
            == ls.filter(begins_with("processor"@)).len(),
        0 <= j < ls.len() && starts_with(ls[j], "model name"@) && (forall|k: int|
            0 <= k < j ==> !starts_with(#[trigger] ls[k], "model name"@)) && split(ls[j], ':').len()
            > 1 ==> cpu_info_of(ls).0 == trim(split(ls[j], ':')[1]),
        (forall|k: int| 0 <= k < ls.len() ==> !starts_with(#[trigger] ls[k], "model name"@))
            ==> cpu_info_of(ls).0 == "Unknown"@,
{
    lemma_count_is_filter(ls, "processor"@);
    if 0 <= j < ls.len() && starts_with(ls[j], "model name"@) && (forall|k: int|
        0 <= k < j ==> !starts_with(#[trigger] ls[k], "model name"@)) {
        lemma_first_with_prefix_at(ls, "model name"@, j);
    }
    if forall|k: int| 0 <= k < ls.len() ==> !starts_with(#[trigger] ls[k], "model name"@) {
        lemma_first_with_prefix_none(ls, "model name"@);
    }
}

/// The first line of `ls` that begins with `p`.
fn first_with_prefix_exec(ls: &Vec<Vec<char>>, p: &str) -> (r: Option<Vec<char>>)
    ensures
        match first_with_prefix(views(ls@), p@) {
            Some(l) => r matches Some(x) && x@ == l,
            None => r is None,
        },
{
    let mut i: usize = 0;
    assert(views(ls@).skip(0) =~= views(ls@));
    while i < ls.len()
        invariant
            i <= ls@.len(),
            first_with_prefix(views(ls@), p@) == first_with_prefix(views(ls@).skip(i as int), p@),
        decreases ls@.len() - i,
    {
        assert(views(ls@).skip(i as int)[0] == ls@[i as int]@);
        assert(views(ls@).skip(i as int).drop_first() =~= views(ls@).skip(i + 1));
        if starts_with_str(ls[i].as_slice(), p) {
            return Some(ls[i].clone());
        }
        i = i + 1;
    }
    None
}

/// The second colon-separated field of a line.
fn after_colon_exec(l: &[char]) -> (r: Option<Vec<char>>)
    ensures
        match after_colon(l@) {
            Some(v) => r matches Some(x) && x@ == v,
            None => r is None,
        },
{
    let p = split_on(l, ':');
    if p.len() > 1 {
        assert(views(p@)[1] == p@[1]@);
        Some(p[1].clone())
    } else {
        None
    }
}

/// Per core, the `scaling_cur_freq`, `scaling_min_freq` and
/// `scaling_max_freq` files of its `cpufreq` directory, where readable.
#[derive(Debug, Clone)]
pub struct CoreFrequencyFiles {
    pub current: Option<String>,
    pub min: Option<String>,
    pub max: Option<String>,
}

/// The megahertz that a file in kilohertz gives, when it holds a `u32`.
pub open spec fn file_mhz(f: Option<String>) -> Option<u32> {
    match f {
        Some(c) => match parse_unsigned(trim(c@), 10, u32::MAX as nat) {
            Some(k) => Some((k / 1000) as u32),
            None => None,
        },
        None => None,
    }
}

/// The number of cores read: those before the first whose current
/// frequency cannot be read, at most 128.
pub open spec fn cores_read(c: Seq<CoreFrequencyFiles>) -> nat
    decreases c.len(),
{
    if c.len() == 0 {
        0
    } else {
        let k = cores_read(c.drop_last());
        if k == c.len() - 1 && k < 128 && c.last().current is Some {
            k + 1
        } else {
            k
        }
    }
}

/// The per-core frequencies, the smallest minimum (`u32::MAX` when none)
/// and the largest maximum (0 when none) of the cores `c`, in megahertz.
pub open spec fn freq_scan(c: Seq<CoreFrequencyFiles>) -> (Seq<u32>, u32, u32)
    decreases c.len(),
{
    if c.len() == 0 {
        (Seq::<u32>::empty(), u32::MAX, 0)
    } else {
        let prev = freq_scan(c.drop_last());
        let f = c.last();
        (
            match file_mhz(f.current) {
                Some(m) => prev.0.push(m),
                None => prev.0,
            },
            match file_mhz(f.min) {
                Some(m) => if m < prev.1 {
                    m
                } else {
                    prev.1
                },
                None => prev.1,
            },
            match file_mhz(f.max) {
                Some(m) => if m > prev.2 {
                    m
                } else {
                    prev.2
                },
                None => prev.2,
            },
        )
    }
}

/// The sum of `s`.
pub open spec fn total(s: Seq<u32>) -> nat
    decreases s.len(),
{
    if s.len() == 0 {
        0
    } else {
        total(s.drop_last()) + s.last() as nat
    }
}

proof fn lemma_total_bound(s: Seq<u32>)
    requires
        forall|i: int| 0 <= i < s.len() ==> s[i] <= 4294967,
    ensures
        total(s) <= s.len() * 4294967,
    decreases s.len(),
{
    if s.len() > 0 {
        lemma_total_bound(s.drop_last());
    }
}

proof fn lemma_freq_bound(c: Seq<CoreFrequencyFiles>)
    ensures
        freq_scan(c).0.len() <= c.len(),
        forall|i: int| 0 <= i < freq_scan(c).0.len() ==> #[trigger] freq_scan(c).0[i] <= 4294967,
    decreases c.len(),
{
    if c.len() > 0 {
        lemma_freq_bound(c.drop_last());
    }
}

proof fn lemma_cores_read_bound(c: Seq<CoreFrequencyFiles>)
    ensures
        cores_read(c) <= c.len(),
        cores_read(c) <= 128,
        forall|i: int| 0 <= i < cores_read(c) ==> (#[trigger] c[i]).current is Some,
    decreases c.len(),
{
    if c.len() > 0 {
        lemma_cores_read_bound(c.drop_last());
        assert forall|i: int| 0 <= i < cores_read(c) implies (#[trigger] c[i]).current is Some by {
            if i < cores_read(c.drop_last()) {
                assert(c.drop_last()[i] == c[i]);
            }
        }
    }
}

proof fn lemma_cores_read_mono(c: Seq<CoreFrequencyFiles>, j: int)
    requires
        0 <= j <= c.len(),
    ensures
        cores_read(c.take(j)) <= cores_read(c),
    decreases c.len(),
{
    if j < c.len() {
        assert(c.drop_last().take(j) =~= c.take(j));
        lemma_cores_read_mono(c.drop_last(), j);
    } else {
        assert(c.take(j) =~= c);
    }
}

fn mhz_of(f: &Option<String>) -> (r: Option<u32>)
    ensures
        r == file_mhz(*f),
{
    match f {
        Some(c) => match parse_uint(trimmed(chars_of(c.as_str()).as_slice()).as_slice(), 10, 0xffff_ffff) {
            Some(k) => Some((k / 1000) as u32),
            None => None,
        },
        None => None,
    }
}

/// The interface that its files and `ip addr show` describe.
pub struct InterfaceFiles {
    pub name: String,
    pub operstate: Option<String>,
    pub address: Option<String>,
    pub speed: Option<String>,
    pub addresses: String,
}

/// The addresses that the lines of `ip addr show` list: the second word of
/// each trimmed line that begins with `inet ` goes to the first list, that
/// of each line that begins with `inet6 ` to the second when it is not
/// link-local.
pub open spec fn ip_addresses(ls: Seq<Seq<char>>) -> (Seq<Seq<char>>, Seq<Seq<char>>)
    decreases ls.len(),
{
    if ls.len() == 0 {
        (Seq::<Seq<char>>::empty(), Seq::<Seq<char>>::empty())
    } else {
        let prev = ip_addresses(ls.drop_last());
        let t = trim(ls.last());
        let w = words(t);
        if starts_with(t, "inet "@) {
            if w.len() > 1 {
                (prev.0.push(w[1]), prev.1)
            } else {
                prev
            }
        } else if starts_with(t, "inet6 "@) {
            if w.len() > 1 && !starts_with(w[1], "fe80:"@) {
                (prev.0, prev.1.push(w[1]))
            } else {
                prev
            }
        } else {
            prev
        }
    }
}

/// The files of one fan: its label and input files, where readable.
pub struct FanFiles {
    pub label: Option<String>,
    pub input: Option<String>,
}

/// The label of fan `i` of a sensor without a label file.
pub open spec fn fan_default_label(sensor: Seq<char>, i: nat) -> Seq<char> {
    sensor + " fan"@ + decimal(i)
}

/// The speeds of the fans `f` of a sensor, numbered from `first`: those
/// spinning, with their label.
pub open spec fn fans_of(sensor: Seq<char>, f: Seq<FanFiles>, first: nat) -> Seq<(Seq<char>, u32)>
    decreases f.len(),
{
    if f.len() == 0 {
        Seq::<(Seq<char>, u32)>::empty()
    } else {
        let prev = fans_of(sensor, f.drop_last(), first);
        let x = f.last();
        let i = (first + f.len() - 1) as nat;
        let rpm: u32 = match opt_o(x.input) {
            Some(c) => match parse_unsigned(trim(c), 10, u32::MAX as nat) {
                Some(v) => v as u32,
                None => 0,
            },
            None => 0,
        };
        let label = match opt_o(x.label) {
            Some(l) => trim(l),
            None => fan_default_label(sensor, i),
        };
        if rpm > 0 {
            prev.push((label, rpm))
        } else {
            prev
        }
    }
}

/// The name of the user with `uid` in the `/etc/passwd` lines `ls`: the
/// first field of the first line whose third field is that number.
pub open spec fn passwd_user(ls: Seq<Seq<char>>, uid: u32) -> Option<Seq<char>>
    decreases ls.len(),
{
    if ls.len() == 0 {
        None
    } else {
        let p = split(ls[0], ':');
        if p.len() >= 3 && parse_unsigned(p[2], 10, u32::MAX as nat) == Some(uid as nat) {
            Some(p[0])
        } else {
            passwd_user(ls.drop_first(), uid)
        }
    }
}

impl TelemetryBackend {
    pub fn new() -> (r: Self)
        ensures
            r.process_times() == Map::<u32, (u64, u64)>::empty(),
    {
        TelemetryBackend { prev_proc_times: HashMap::new() }
    }

    /// The user and system ticks last recorded for each process.
    pub closed spec fn process_times(&self) -> Map<u32, (u64, u64)> {
        self.prev_proc_times@
    }

    /// Records the user and system ticks of a process and gives the ticks
    /// it ran since they were last recorded, if they were.
    pub fn process_ticks(&mut self, pid: u32, utime: u64, stime: u64) -> (r: Option<u64>)
        requires
            utime + stime <= u64::MAX,
            old(self).process_times().contains_key(pid) ==> old(self).process_times()[pid].0
                + old(self).process_times()[pid].1 <= u64::MAX,
        ensures
            final(self).process_times() == old(self).process_times().insert(pid, (utime, stime)),
            match r {
                Some(d) => old(self).process_times().contains_key(pid) && {
                    let (pu, ps) = old(self).process_times()[pid];
                    d == (if utime + stime >= pu + ps {
                        (utime + stime - pu - ps) as u64
                    } else {
                        0
                    })
                },
                None => !old(self).process_times().contains_key(pid),
            },
    {
        broadcast use vstd::std_specs::hash::group_hash_axioms;

        let total = utime + stime;
        let delta = match self.prev_proc_times.get(&pid) {
            Some(prev) => {
                let before = prev.0 + prev.1;
                Some(
                    if total >= before {
                        total - before
                    } else {
                        0
                    },
                )
            },
            None => None,
        };
        self.prev_proc_times.insert(pid, (utime, stime));
        delta
    }

    /// The processor's description, from `/proc/cpuinfo` and the
    /// architecture the program was built for.
    pub fn cpu_info(cpuinfo: &str, architecture: &str) -> (r: CpuInfo)
        ensures
            (r.model@, r.cores_physical, r.cores_logical) == cpu_info_of(lines(cpuinfo@)),
            r.architecture@ == architecture@,
    {
        let ls = lines_of(chars_of(cpuinfo).as_slice());
        let model = match first_with_prefix_exec(&ls, "model name") {
            Some(l) => match after_colon_exec(l.as_slice()) {
                Some(v) => string_of(trimmed(v.as_slice()).as_slice()),
                None => string_from("Unknown"),
            },
            None => string_from("Unknown"),
        };
        let mut count: u64 = 0;
        let mut i: usize = 0;
        assert(views(ls@).take(0) =~= Seq::<Seq<char>>::empty());
        while i < ls.len()
            invariant
                i <= ls@.len(),
                count == count_with_prefix(views(ls@).take(i as int), "processor"@),
                count <= i,
            decreases ls@.len() - i,
        {
            assert(views(ls@).take(i + 1).drop_last() =~= views(ls@).take(i as int));
            assert(views(ls@)[i as int] == ls@[i as int]@);
            if starts_with_str(ls[i].as_slice(), "processor") {
                count = count + 1;
            }
            i = i + 1;
        }
        assert(views(ls@).take(i as int) =~= views(ls@));
        let logical = count as u32;
        let physical = match first_with_prefix_exec(&ls, "cpu cores") {
            Some(l) => match after_colon_exec(l.as_slice()) {
                Some(v) => match parse_uint(trimmed(v.as_slice()).as_slice(), 10, 0xffff_ffff) {
                    Some(n) => n as u32,
                    None => logical,
                },
                None => logical,
            },
            None => logical,
        };
        CpuInfo {
            model,
            cores_physical: physical,
            cores_logical: logical,
            architecture: string_from(architecture),
        }
    }

    /// The CPU frequencies, from the `cpufreq` files of the cores in order:
    /// the cores before the first whose current frequency cannot be read,
    /// at most 128, their average (0 without cores), the smallest minimum
    /// and the largest maximum (0 when none is known).
    pub fn cpu_frequency(cores: &[CoreFrequencyFiles]) -> (r: CpuFrequency)
        ensures
            ({
                let c = cores@.take(cores_read(cores@) as int);
                let s = freq_scan(c);
                &&& r.per_core_mhz@ == s.0
                &&& r.current_mhz == total(s.0) / (if s.0.len() > 0 {
                    s.0.len()
                } else {
                    1
                })
                &&& r.min_mhz == (if s.1 == u32::MAX {
                    0
                } else {
                    s.1
                })
                &&& r.max_mhz == s.2
            }),
    {
        let ghost n = cores_read(cores@);
        let mut k: usize = 0;
        proof {
            lemma_cores_read_bound(cores@);
        }
        while k < cores.len() && k < 128 && cores[k].current.is_some()
            invariant
                k <= n,
                n == cores_read(cores@),
                n <= cores@.len(),
                forall|i: int| 0 <= i < n ==> (#[trigger] cores@[i]).current is Some,
                cores_read(cores@.take(k as int)) == k,
            decreases n - k,
        {
            assert(cores@.take(k + 1).drop_last() =~= cores@.take(k as int));
            proof {
                lemma_cores_read_prefix(cores@, k + 1);
                lemma_cores_read_mono(cores@, k + 1);
            }
            k = k + 1;
        }
        proof {
            lemma_cores_read_stop(cores@, k as int);
        }
        let ghost c = cores@.take(k as int);
        let mut per_core: Vec<u32> = Vec::new();
        let mut min_mhz: u32 = 0xffff_ffff;
        let mut max_mhz: u32 = 0;
        let mut sum: u64 = 0;
        let mut i: usize = 0;
        assert(c.take(0) =~= Seq::<CoreFrequencyFiles>::empty());
        while i < k
            invariant
                i <= k <= cores@.len(),
                k <= 128,
                c == cores@.take(k as int),
                (per_core@, min_mhz, max_mhz) == freq_scan(c.take(i as int)),
                sum == total(per_core@),
                sum <= per_core@.len() * 4294967,
                per_core@.len() <= i,
            decreases k - i,
        {
            assert(c.take(i + 1).drop_last() =~= c.take(i as int));
            assert(c.take(i + 1).last() == cores@[i as int]);
            let f = &cores[i];
            match mhz_of(&f.current) {
                Some(m) => {
                    proof {
                        lemma_freq_bound(c.take(i + 1));
                    }
                    let ghost before = per_core@;
                    per_core.push(m);
                    assert(per_core@.drop_last() =~= before);
                    sum = sum + m as u64;
                },
                None => {},
            }
            match mhz_of(&f.min) {
                Some(m) => if m < min_mhz {
                    min_mhz = m;
                },
                None => {},
            }
            match mhz_of(&f.max) {
                Some(m) => if m > max_mhz {
                    max_mhz = m;
                },
                None => {},
            }
            i = i + 1;
        }
        assert(c.take(i as int) =~= c);
        let count = per_core.len() as u64;
        let current = if count > 0 {
            sum / count
        } else {
            sum
        };
        proof {
            lemma_freq_bound(c);
            lemma_total_bound(per_core@);
            if count > 0 {
                assert(sum / count <= 4294967) by (nonlinear_arith)
                    requires
                        sum <= count * 4294967,
                        count > 0,
                ;
            }
        }
        CpuFrequency {
            current_mhz: current as u32,
            min_mhz: if min_mhz == 0xffff_ffff {
                0
            } else {
                min_mhz
            },
            max_mhz,
            per_core_mhz: per_core,
        }
    }

    /// The addresses that `ip addr show` lists for an interface.
    pub fn get_interface_addresses(ip_output: &str) -> (r: (Vec<String>, Vec<String>))
        ensures
            (string_views(r.0@), string_views(r.1@)) == ip_addresses(lines(ip_output@)),
    {
        let ls = lines_of(chars_of(ip_output).as_slice());
        let mut ipv4: Vec<String> = Vec::new();
        let mut ipv6: Vec<String> = Vec::new();
        let mut i: usize = 0;
        assert(views(ls@).take(0) =~= Seq::<Seq<char>>::empty());
        assert(string_views(ipv4@) =~= Seq::<Seq<char>>::empty());
        assert(string_views(ipv6@) =~= Seq::<Seq<char>>::empty());
        while i < ls.len()
            invariant
                i <= ls@.len(),
                views(ls@) == lines(ip_output@),
                (string_views(ipv4@), string_views(ipv6@)) == ip_addresses(
                    views(ls@).take(i as int),
                ),
            decreases ls@.len() - i,
        {
            assert(views(ls@).take(i + 1).drop_last() =~= views(ls@).take(i as int));
            assert(views(ls@)[i as int] == ls@[i as int]@);
            let t = trimmed(ls[i].as_slice());
            let w = split_ws(t.as_slice());
            if starts_with_str(t.as_slice(), "inet ") {
                if w.len() > 1 {
                    assert(views(w@)[1] == w@[1]@);
                    let ghost before = ipv4@;
                    let a = string_of(w[1].as_slice());
                    ipv4.push(a);
                    assert(string_views(ipv4@) =~= string_views(before).push(a@));
                }
            } else if starts_with_str(t.as_slice(), "inet6 ") {
                if w.len() > 1 {
                    assert(views(w@)[1] == w@[1]@);
                    if !starts_with_str(w[1].as_slice(), "fe80:") {
                        let ghost before = ipv6@;
                        let a = string_of(w[1].as_slice());
                        ipv6.push(a);
                        assert(string_views(ipv6@) =~= string_views(before).push(a@));
                    }
                }
            }
            i = i + 1;
        }
        assert(views(ls@).take(i as int) =~= views(ls@));
        (ipv4, ipv6)
    }

    /// The interface that its files describe; the loopback interface is
    /// left out.
    pub fn network_interface(files: &InterfaceFiles) -> (r: Option<NetworkInterface>)
        ensures
            files.name@ == "lo"@ <==> r is None,
            r matches Some(i) ==> {
                &&& i.name@ == files.name@
                &&& i.is_up == (match opt_o(files.operstate) {
                    Some(s) => trim(s) == "up"@,
                    None => false,
                })
                &&& opt_o(i.mac_address) == (match opt_o(files.address) {
                    Some(s) => Some(trim(s)),
                    None => None,
                })
                &&& i.speed_mbps == (match opt_o(files.speed) {
                    Some(s) => match parse_unsigned(trim(s), 10, u32::MAX as nat) {
                        Some(v) => Some(v as u32),
                        None => None,
                    },
                    None => None,
                })
                &&& (string_views(i.ipv4@), string_views(i.ipv6@)) == ip_addresses(
                    lines(files.addresses@),
                )
            },
    {
        let name = chars_of(files.name.as_str());
        if eq_str(name.as_slice(), "lo") {
            return None;
        }
        let is_up = match &files.operstate {
            Some(s) => eq_str(trimmed(chars_of(s.as_str()).as_slice()).as_slice(), "up"),
            None => false,
        };
        let mac_address = match &files.address {
            Some(s) => Some(string_of(trimmed(chars_of(s.as_str()).as_slice()).as_slice())),
            None => None,
        };
        let speed_mbps = match &files.speed {
            Some(s) => match parse_uint(
                trimmed(chars_of(s.as_str()).as_slice()).as_slice(),
                10,
                0xffff_ffff,
            ) {
                Some(v) => Some(v as u32),
                None => None,
            },
            None => None,
        };
        let (ipv4, ipv6) = Self::get_interface_addresses(files.addresses.as_str());
        Some(
            NetworkInterface {
                name: files.name.clone(),
                mac_address,
                ipv4,
                ipv6,
                is_up,
                speed_mbps,
            },
        )
    }

    /// The spinning fans of a hardware monitor, from its `name` file and
    /// the files of its fans in order (at most nine are read).
    pub fn fan_speeds(sensor_name: Option<&str>, fans: &[FanFiles]) -> (r: Vec<FanSpeed>)
        ensures
            r@.map_values(|f: FanSpeed| (f.label@, f.rpm)) == fans_of(
                match sensor_name {
                    Some(n) => trim(n@),
                    None => "unknown"@,
                },
                fans@.take(if fans@.len() < 9 { fans@.len() as int } else { 9 }),
                1,
            ),
    {
        let sensor = match sensor_name {
            Some(n) => trimmed(chars_of(n).as_slice()),
            None => chars_of("unknown"),
        };
        let n: usize = if fans.len() < 9 {
            fans.len()
        } else {
            9
        };
        let ghost f = fans@.take(n as int);
        let mut r: Vec<FanSpeed> = Vec::new();
        let mut i: usize = 0;
        assert(f.take(0) =~= Seq::<FanFiles>::empty());
        assert(r@.map_values(|x: FanSpeed| (x.label@, x.rpm)) =~= Seq::<(Seq<char>, u32)>::empty());
        while i < n
            invariant
                i <= n <= fans@.len(),
                n <= 9,
                f == fans@.take(n as int),
                r@.map_values(|x: FanSpeed| (x.label@, x.rpm)) == fans_of(
                    sensor@,
                    f.take(i as int),
                    1,
                ),
            decreases n - i,
        {
            assert(f.take(i + 1).drop_last() =~= f.take(i as int));
            assert(f.take(i + 1).last() == fans@[i as int]);
            let x = &fans[i];
            let rpm: u32 = match &x.input {
                Some(c) => match parse_uint(
                    trimmed(chars_of(c.as_str()).as_slice()).as_slice(),
                    10,
                    0xffff_ffff,
                ) {
                    Some(v) => v as u32,
                    None => 0,
                },
                None => 0,
            };
            if rpm > 0 {
                let label = match &x.label {
                    Some(l) => trimmed(chars_of(l.as_str()).as_slice()),
                    None => {
                        let mut d = sensor.clone();
                        append_str(&mut d, " fan");
                        let num = decimal_of((i + 1) as u64);
                        append(&mut d, num.as_slice());
                        d
                    },
                };
                let ghost before = r@;
                let fs = FanSpeed { label: string_of(label.as_slice()), rpm };
                r.push(fs);
                assert(r@.map_values(|x: FanSpeed| (x.label@, x.rpm)) =~= before.map_values(
                    |x: FanSpeed| (x.label@, x.rpm),
                ).push((fs.label@, rpm)));
            }
            i = i + 1;
        }
        assert(f.take(i as int) =~= f);
        r
    }

    /// The name of the user with `uid`, from `/etc/passwd`: `None` when it
    /// cannot be read, the number itself when no line names the user.
    pub fn uid_to_username(passwd: Option<&str>, uid: u32) -> (r: Option<String>)
        ensures
            opt_o(r) == (match passwd {
                Some(p) => match passwd_user(lines(p@), uid) {
                    Some(n) => Some(n),
                    None => Some(decimal(uid as nat)),
                },
                None => None,
            }),
    {
        let p = match passwd {
            Some(p) => p,
            None => {
                return None;
            },
        };
        let ls = lines_of(chars_of(p).as_slice());
        let mut i: usize = 0;
        assert(views(ls@).skip(0) =~= views(ls@));
        while i < ls.len()
            invariant
                i <= ls@.len(),
                views(ls@) == lines(p@),
                passwd == Some(p),
                passwd_user(lines(p@), uid) == passwd_user(views(ls@).skip(i as int), uid),
            decreases ls@.len() - i,
        {
            assert(views(ls@).skip(i as int)[0] == ls@[i as int]@);
            assert(views(ls@).skip(i as int).drop_first() =~= views(ls@).skip(i + 1));
            let parts = split_on(ls[i].as_slice(), ':');
            if parts.len() >= 3 {
                assert(views(parts@)[0] == parts@[0]@);
                assert(views(parts@)[2] == parts@[2]@);
                match parse_uint(parts[2].as_slice(), 10, 0xffff_ffff) {
                    Some(u) => if u == uid as u64 {
                        return Some(string_of(parts[0].as_slice()));
                    },
                    None => {},
                }
            }
            i = i + 1;
        }
        Some(string_of(decimal_of(uid as u64).as_slice()))
    }

    /// The kernel release that `/proc/version` gives: its third word, or
    /// `unknown`.
    pub fn kernel_of(version: Option<&str>) -> (r: String)
        ensures
            r@ == (match version {
                Some(v) => if words(v@).len() > 2 {
                    words(v@)[2]
                } else {
                    "unknown"@
                },
                None => "unknown"@,
            }),
    {
        match version {
            Some(v) => {
                let w = split_ws(chars_of(v).as_slice());
                if w.len() > 2 {
                    assert(views(w@)[2] == w@[2]@);
                    string_of(w[2].as_slice())
                } else {
                    string_from("unknown")
                }
            },
            None => string_from("unknown"),
        }
    }

    /// The boot time that the first `btime` line of `/proc/stat` gives, or
    /// 0.
    pub fn boot_time_of(stat: Option<&str>) -> (r: u64)
        ensures
            r == (match stat {
                Some(s) => match first_with_prefix(lines(s@), "btime"@) {
                    Some(l) => if words(l).len() > 1 {
                        match parse_unsigned(words(l)[1], 10, u64::MAX as nat) {
                            Some(v) => v as u64,
                            None => 0,
                        }
                    } else {
                        0
                    },
                    None => 0,
                },
                None => 0,
            }),
    {
        match stat {
            Some(s) => {
                let ls = lines_of(chars_of(s).as_slice());
                match first_with_prefix_exec(&ls, "btime") {
                    Some(l) => {
                        let w = split_ws(l.as_slice());
                        if w.len() > 1 {
                            assert(views(w@)[1] == w@[1]@);
                            match parse_uint(w[1].as_slice(), 10, 0xffff_ffff_ffff_ffff) {
                                Some(v) => v,
                                None => 0,
                            }
                        } else {
                            0
                        }
                    },
                    None => 0,
                }
            },
            None => 0,
        }
    }

    /// The host name: the trimmed content of `/etc/hostname`, or `unknown`.
    pub fn hostname_of(hostname_file: Option<&str>) -> (r: String)
        ensures
            r@ == (match hostname_file {
                Some(h) => trim(h@),
                None => "unknown"@,
            }),
    {
        match hostname_file {
            Some(h) => string_of(trimmed(chars_of(h).as_slice()).as_slice()),
            None => string_from("unknown"),
        }
    }
}

proof fn lemma_cores_read_prefix(c: Seq<CoreFrequencyFiles>, k: int)
    requires
        0 < k <= c.len(),
        cores_read(c.take(k - 1)) == k - 1,
        k - 1 < 128,
        c[k - 1].current is Some,
    ensures
        cores_read(c.take(k)) == k,
{
    assert(c.take(k).drop_last() =~= c.take(k - 1));
}

proof fn lemma_cores_read_stop(c: Seq<CoreFrequencyFiles>, k: int)
    requires
        0 <= k <= c.len(),
        cores_read(c.take(k)) == k,
        k == c.len() || k >= 128 || c[k].current is None,
    ensures
        cores_read(c) == k,
    decreases c.len() - k,
{
    if k < c.len() {
        lemma_cores_read_stays(c, k, c.len() as int);
    } else {
        assert(c.take(k) =~= c);
    }
}

proof fn lemma_cores_read_stays(c: Seq<CoreFrequencyFiles>, k: int, j: int)
    requires
        0 <= k < j <= c.len(),
        cores_read(c.take(k)) == k,
        k >= 128 || c[k].current is None,
    ensures
        cores_read(c.take(j)) == k,
        j == c.len() ==> cores_read(c) == k,
    decreases j - k,
{
    if j == k + 1 {
        assert(c.take(j).drop_last() =~= c.take(k));
    } else {
        lemma_cores_read_stays(c, k, j - 1);
        assert(c.take(j).drop_last() =~= c.take(j - 1));
    }
    if j == c.len() {
        assert(c.take(j) =~= c);
    }
}

// Memory

/// The key and value of a line of `/proc/meminfo`, when its first word
/// after the colon is a number.
pub open spec fn mem_entry(l: Seq<char>) -> Option<(Seq<char>, nat)> {
    match split_once(l, ':') {
        Some((k, rest)) => {
            let w = words(rest);
            if w.len() > 0 {
                match parse_unsigned(w[0], 10, u64::MAX as nat) {
                    Some(v) => Some((k, v)),
                    None => None,
                }
            } else {
                None
            }
        },
        None => None,
    }
}

/// The kilobytes that the last line for `key` gives, 0 without one.
pub open spec fn mem_value(ls: Seq<Seq<char>>, key: Seq<char>) -> nat
    decreases ls.len(),
{
    if ls.len() == 0 {
        0
    } else {
        match mem_entry(ls.last()) {
            Some((k, v)) => if k == key {
                v
            } else {
                mem_value(ls.drop_last(), key)
            },
            None => mem_value(ls.drop_last(), key),
        }
    }
}

/// Every value of the `/proc/meminfo` lines fits in bytes.
pub open spec fn mem_fits(ls: Seq<Seq<char>>) -> bool {
    forall|k: int|
        0 <= k < ls.len() ==> (mem_entry(#[trigger] ls[k]) matches Some((_, v)) ==> v * 1024
            <= u64::MAX)
}

/// `a - b`, or 0 when `b` is larger.
pub open spec fn sat(a: nat, b: nat) -> nat {
    if a >= b {
        (a - b) as nat
    } else {
        0
    }
}

proof fn lemma_mem_value_fits(ls: Seq<Seq<char>>, key: Seq<char>)
    requires
        mem_fits(ls),
    ensures
        mem_value(ls, key) * 1024 <= u64::MAX,
    decreases ls.len(),
{
    if ls.len() > 0 {
        let p = ls.drop_last();
        assert forall|k: int| 0 <= k < p.len() implies (mem_entry(#[trigger] p[k]) matches Some((_, v))
            ==> v * 1024 <= u64::MAX) by {
            assert(p[k] == ls[k]);
        }
        lemma_mem_value_fits(p, key);
        assert(ls.last() == ls[ls.len() - 1]);
    }
}

fn mem_lookup(entries: &Vec<(Vec<char>, u64)>, key: &str) -> (r: u64)
    requires
        forall|k: int| 0 <= k < entries@.len() ==> (#[trigger] entries@[k]).1 <= u64::MAX,
    ensures
        r == mem_value_in(entries@, key@),
{
    let mut k: usize = entries.len();
    let kc = chars_of(key);
    assert(entries@.take(k as int) =~= entries@);
    while k > 0
        invariant
            k <= entries@.len(),
            kc@ == key@,
            mem_value_in(entries@, key@) == mem_value_in(entries@.take(k as int), key@),
        decreases k,
    {
        assert(entries@.take(k as int).last() == entries@[k - 1]);
        assert(entries@.take(k as int).drop_last() =~= entries@.take(k - 1));
        if crate::text::seq_eq(entries[k - 1].0.as_slice(), kc.as_slice()) {
            return entries[k - 1].1;
        }
        k = k - 1;
    }
    0
}

/// The value of the last entry for `key`, 0 without one.
pub open spec fn mem_value_in(e: Seq<(Vec<char>, u64)>, key: Seq<char>) -> nat
    decreases e.len(),
{
    if e.len() == 0 {
        0
    } else if e.last().0@ == key {
        e.last().1 as nat
    } else {
        mem_value_in(e.drop_last(), key)
    }
}

/// The entries of the lines, in bytes.
pub open spec fn mem_entries(ls: Seq<Seq<char>>) -> Seq<(Seq<char>, nat)>
    decreases ls.len(),
{
    if ls.len() == 0 {
        Seq::<(Seq<char>, nat)>::empty()
    } else {
        match mem_entry(ls.last()) {
            Some((k, v)) => mem_entries(ls.drop_last()).push((k, v * 1024)),
            None => mem_entries(ls.drop_last()),
        }
    }
}

proof fn lemma_mem_entries_lookup(ls: Seq<Seq<char>>, e: Seq<(Vec<char>, u64)>, key: Seq<char>)
    requires
        e.len() == mem_entries(ls).len(),
        forall|k: int|
            0 <= k < e.len() ==> (#[trigger] e[k]).0@ == mem_entries(ls)[k].0 && e[k].1
                == mem_entries(ls)[k].1,
    ensures
        mem_value_in(e, key) == mem_value(ls, key) * 1024,
    decreases ls.len(),
{
    if ls.len() > 0 {
        match mem_entry(ls.last()) {
            Some((k, v)) => {
                let p = mem_entries(ls.drop_last());
                assert(mem_entries(ls) == p.push((k, v * 1024)));
                let ep = e.drop_last();
                assert forall|j: int| 0 <= j < ep.len() implies (#[trigger] ep[j]).0@ == p[j].0
                    && ep[j].1 == p[j].1 by {
                    assert(ep[j] == e[j]);
                    assert(mem_entries(ls)[j] == p[j]);
                }
                lemma_mem_entries_lookup(ls.drop_last(), ep, key);
                assert(e.last() == e[e.len() - 1]);
            },
            None => {
                lemma_mem_entries_lookup(ls.drop_last(), e, key);
            },
        }
    }
}

impl TelemetryBackend {
    /// Memory and swap in bytes, from `/proc/meminfo`: the used memory is
    /// the total less the available, the used swap the total less the free.
    pub fn memory_info(meminfo: &str) -> (r: MemoryInfo)
        requires
            mem_fits(lines(meminfo@)),
        ensures
            ({
                let ls = lines(meminfo@);
                &&& r.total_bytes == mem_value(ls, "MemTotal"@) * 1024
                &&& r.available_bytes == mem_value(ls, "MemAvailable"@) * 1024
                &&& r.used_bytes == sat(
                    mem_value(ls, "MemTotal"@) * 1024,
                    mem_value(ls, "MemAvailable"@) * 1024,
                )
                &&& r.buffers_bytes == mem_value(ls, "Buffers"@) * 1024
                &&& r.cached_bytes == mem_value(ls, "Cached"@) * 1024
                &&& r.swap_total_bytes == mem_value(ls, "SwapTotal"@) * 1024
                &&& r.swap_used_bytes == sat(
                    mem_value(ls, "SwapTotal"@) * 1024,
                    mem_value(ls, "SwapFree"@) * 1024,
                )
            }),
    {
        let ls = lines_of(chars_of(meminfo).as_slice());
        let ghost lv = lines(meminfo@);
        let mut entries: Vec<(Vec<char>, u64)> = Vec::new();
        let mut i: usize = 0;
        assert(views(ls@).take(0) =~= Seq::<Seq<char>>::empty());
        while i < ls.len()
            invariant
                i <= ls@.len(),
                views(ls@) == lv,
                mem_fits(lv),
                entries@.len() == mem_entries(lv.take(i as int)).len(),
                forall|k: int|
                    0 <= k < entries@.len() ==> (#[trigger] entries@[k]).0@ == mem_entries(
                        lv.take(i as int),
                    )[k].0 && entries@[k].1 == mem_entries(lv.take(i as int))[k].1,
            decreases ls@.len() - i,
        {
            assert(lv.take(i + 1).drop_last() =~= lv.take(i as int));
            assert(lv[i as int] == ls@[i as int]@);
            assert(lv.take(i + 1).last() == lv[i as int]);
            match split_once_exec(ls[i].as_slice(), ':') {
                Some((key, rest)) => {
                    let w = split_ws(rest.as_slice());
                    if w.len() > 0 {
                        assert(views(w@)[0] == w@[0]@);
                        match parse_uint(w[0].as_slice(), 10, 0xffff_ffff_ffff_ffff) {
                            Some(kb) => {
                                assert(mem_entry(lv[i as int]) == Some((key@, kb as nat)));
                                entries.push((key, kb * 1024));
                            },
                            None => {},
                        }
                    }
                },
                None => {},
            }
            i = i + 1;
        }
        assert(lv.take(i as int) =~= lv);
        proof {
            lemma_mem_entries_lookup(lv, entries@, "MemTotal"@);
            lemma_mem_entries_lookup(lv, entries@, "MemAvailable"@);
            lemma_mem_entries_lookup(lv, entries@, "Buffers"@);
            lemma_mem_entries_lookup(lv, entries@, "Cached"@);
            lemma_mem_entries_lookup(lv, entries@, "SwapTotal"@);
            lemma_mem_entries_lookup(lv, entries@, "SwapFree"@);
        }
        let total = mem_lookup(&entries, "MemTotal");
        let available = mem_lookup(&entries, "MemAvailable");
        let buffers = mem_lookup(&entries, "Buffers");
        let cached = mem_lookup(&entries, "Cached");
        let swap_total = mem_lookup(&entries, "SwapTotal");
        let swap_free = mem_lookup(&entries, "SwapFree");
        MemoryInfo {
            total_bytes: total,
            available_bytes: available,
            used_bytes: if total >= available {
                total - available
            } else {
                0
            },
            buffers_bytes: buffers,
            cached_bytes: cached,
            swap_total_bytes: swap_total,
            swap_used_bytes: if swap_total >= swap_free {
                swap_total - swap_free
            } else {
                0
            },
        }
    }
}

// Disk and network I/O

/// What the I/O counters of a disk hold.
pub struct DiskIoView {
    pub device: Seq<char>,
    pub read_bytes: u64,
    pub write_bytes: u64,
    pub read_ops: u64,
    pub write_ops: u64,
}

impl View for DiskIo {
    type V = DiskIoView;

    open spec fn view(&self) -> DiskIoView {
        DiskIoView {
            device: self.device@,
            read_bytes: self.read_bytes,
            write_bytes: self.write_bytes,
            read_ops: self.read_ops,
            write_ops: self.write_ops,
        }
    }
}

/// The decimal value of a field, 0 when it does not parse.
pub open spec fn u64_field(w: Seq<char>) -> nat {
    match parse_unsigned(w, 10, u64::MAX as nat) {
        Some(v) => v,
        None => 0,
    }
}

/// A block device name that stands for a whole disk: one that does not end
/// in a digit, or an NVMe namespace that is not a partition.
pub open spec fn whole_disk(name: Seq<char>) -> bool {
    !(name.len() > 0 && '0' <= name.last() && name.last() <= '9') || (starts_with(name, "nvme"@)
        && contains(name, "n1"@) && !contains(name, "p"@))
}

/// The counters of a whole disk that a line of `/proc/diskstats` with at
/// least fourteen fields gives; sectors are 512 bytes.
pub open spec fn disk_line(l: Seq<char>) -> Option<DiskIoView> {
    let w = words(l);
    if w.len() >= 14 && whole_disk(w[2]) {
        Some(
            DiskIoView {
                device: w[2],
                read_bytes: (u64_field(w[5]) * 512) as u64,
                write_bytes: (u64_field(w[9]) * 512) as u64,
                read_ops: u64_field(w[3]) as u64,
                write_ops: u64_field(w[7]) as u64,
            },
        )
    } else {
        None
    }
}

/// The sector counts of the disk lines fit in bytes.
pub open spec fn diskstats_fit(ls: Seq<Seq<char>>) -> bool {
    forall|k: int|
        0 <= k < ls.len() ==> {
            let w = words(#[trigger] ls[k]);
            w.len() >= 14 && whole_disk(w[2]) ==> u64_field(w[5]) * 512 <= u64::MAX && u64_field(
                w[9],
            ) * 512 <= u64::MAX
        }
}

/// The position of the first entry of `s` for `name`.
pub open spec fn position_of(s: Seq<Seq<char>>, name: Seq<char>) -> Option<int>
    decreases s.len(),
{
    if s.len() == 0 {
        None
    } else {
        match position_of(s.drop_last(), name) {
            Some(i) => Some(i),
            None => if s.last() == name {
                Some(s.len() - 1)
            } else {
                None
            },
        }
    }
}

/// The names of a sequence of disk counters.
pub open spec fn disk_names(s: Seq<DiskIoView>) -> Seq<Seq<char>> {
    s.map_values(|d: DiskIoView| d.device)
}

/// The disks after one more: a disk seen before takes the new counters in
/// its place, a new one comes last.
pub open spec fn disk_upsert(s: Seq<DiskIoView>, d: DiskIoView) -> Seq<DiskIoView> {
    match position_of(disk_names(s), d.device) {
        Some(i) => s.update(i, d),
        None => s.push(d),
    }
}

/// The disks that the lines of `/proc/diskstats` give, each once with its
/// last counters, in the order in which they first appear.
pub open spec fn disks_of(ls: Seq<Seq<char>>) -> Seq<DiskIoView>
    decreases ls.len(),
{
    if ls.len() == 0 {
        Seq::<DiskIoView>::empty()
    } else {
        let prev = disks_of(ls.drop_last());
        match disk_line(ls.last()) {
            Some(d) => disk_upsert(prev, d),
            None => prev,
        }
    }
}

/// What the I/O counters of an interface hold.
pub struct NetIoView {
    pub interface: Seq<char>,
    pub rx_bytes: u64,
    pub tx_bytes: u64,
    pub rx_packets: u64,
    pub tx_packets: u64,
    pub rx_errors: u64,
    pub tx_errors: u64,
}

impl View for NetworkIo {
    type V = NetIoView;

    open spec fn view(&self) -> NetIoView {
        NetIoView {
            interface: self.interface@,
            rx_bytes: self.rx_bytes,
            tx_bytes: self.tx_bytes,
            rx_packets: self.rx_packets,
            tx_packets: self.tx_packets,
            rx_errors: self.rx_errors,
            tx_errors: self.tx_errors,
        }
    }
}

/// The counters of an interface other than loopback that a line of
/// `/proc/net/dev` with at least eleven fields gives.
pub open spec fn net_line(l: Seq<char>) -> Option<NetIoView> {
    let w = words(l);
    if w.len() >= 11 && trim_char_end(w[0], ':') != "lo"@ {
        Some(
            NetIoView {
                interface: trim_char_end(w[0], ':'),
                rx_bytes: u64_field(w[1]) as u64,
                rx_packets: u64_field(w[2]) as u64,
                rx_errors: u64_field(w[3]) as u64,
                tx_bytes: u64_field(w[9]) as u64,
                tx_packets: u64_field(w[10]) as u64,
                tx_errors: u64_field(w[11]) as u64,
            },
        )
    } else {
        None
    }
}

/// No interface line other than loopback has exactly eleven fields: the
/// transmit error count, the twelfth field, is read from each.
pub open spec fn netdev_ok(ls: Seq<Seq<char>>) -> bool {
    forall|k: int|
        2 <= k < ls.len() ==> {
            let w = words(#[trigger] ls[k]);
            w.len() == 11 ==> trim_char_end(w[0], ':') == "lo"@
        }
}

/// The names of a sequence of interface counters.
pub open spec fn net_names(s: Seq<NetIoView>) -> Seq<Seq<char>> {
    s.map_values(|d: NetIoView| d.interface)
}

/// The interfaces after one more, as for disks.
pub open spec fn net_upsert(s: Seq<NetIoView>, d: NetIoView) -> Seq<NetIoView> {
    match position_of(net_names(s), d.interface) {
        Some(i) => s.update(i, d),
        None => s.push(d),
    }
}

/// The interfaces that the lines of `/proc/net/dev` give after its two
/// header lines, each once with its last counters, in order of first
/// appearance.
pub open spec fn net_ios_of(ls: Seq<Seq<char>>) -> Seq<NetIoView>
    decreases ls.len(),
{
    if ls.len() <= 2 {
        Seq::<NetIoView>::empty()
    } else {
        let prev = net_ios_of(ls.drop_last());
        match net_line(ls.last()) {
            Some(d) => net_upsert(prev, d),
            None => prev,
        }
    }
}

/// The position of the first name `name` among `names`.
fn position_exec(names: &Vec<Vec<char>>, name: &[char]) -> (r: Option<usize>)
    ensures
        match position_of(views(names@), name@) {
            Some(i) => r == Some(i as usize),
            None => r is None,
        },
        r matches Some(i) ==> i < names@.len() && position_of(views(names@), name@) == Some(
            i as int,
        ),
{
    let ghost v = views(names@);
    let mut i: usize = 0;
    assert(v.take(0) =~= Seq::<Seq<char>>::empty());
    while i < names.len()
        invariant
            i <= names@.len(),
            v == views(names@),
            position_of(v.take(i as int), name@) is None,
        decreases names@.len() - i,
    {
        assert(v.take(i + 1).drop_last() =~= v.take(i as int));
        assert(v[i as int] == names@[i as int]@);
        if crate::text::seq_eq(names[i].as_slice(), name) {
            proof {
                lemma_position_prefix(v, name@, i + 1);
            }
            return Some(i);
        }
        i = i + 1;
    }
    assert(v.take(i as int) =~= v);
    None
}

proof fn lemma_position_prefix(v: Seq<Seq<char>>, name: Seq<char>, k: int)
    requires
        0 <= k <= v.len(),
        position_of(v.take(k), name) is Some,
    ensures
        position_of(v, name) == position_of(v.take(k), name),
    decreases v.len() - k,
{
    if k < v.len() {
        assert(v.take(k + 1).drop_last() =~= v.take(k));
        lemma_position_prefix(v, name, k + 1);
    } else {
        assert(v.take(k) =~= v);
    }
}

proof fn lemma_position_bound(v: Seq<Seq<char>>, name: Seq<char>)
    ensures
        position_of(v, name) matches Some(i) ==> 0 <= i < v.len() && v[i] == name,
    decreases v.len(),
{
    if v.len() > 0 {
        lemma_position_bound(v.drop_last(), name);
    }
}

fn field_u64(w: &Vec<Vec<char>>, i: usize) -> (r: u64)
    requires
        i < w@.len(),
    ensures
        r == u64_field(views(w@)[i as int]),
{
    assert(views(w@)[i as int] == w@[i as int]@);
    match parse_uint(w[i].as_slice(), 10, 0xffff_ffff_ffff_ffff) {
        Some(v) => v,
        None => 0,
    }
}

impl TelemetryBackend {
    /// The I/O counters of the whole disks that `/proc/diskstats` lists,
    /// each once with its last counters.
    pub fn disk_io(diskstats: &str) -> (r: Vec<DiskIo>)
        requires
            diskstats_fit(lines(diskstats@)),
        ensures
            r@.map_values(|d: DiskIo| d@) == disks_of(lines(diskstats@)),
    {
        let ls = lines_of(chars_of(diskstats).as_slice());
        let ghost lv = lines(diskstats@);
        let mut disks: Vec<DiskIo> = Vec::new();
        let mut names: Vec<Vec<char>> = Vec::new();
        let mut i: usize = 0;
        assert(lv.take(0) =~= Seq::<Seq<char>>::empty());
        assert(disks@.map_values(|d: DiskIo| d@) =~= Seq::<DiskIoView>::empty());
        assert(views(names@) =~= Seq::<Seq<char>>::empty());
        while i < ls.len()
            invariant
                i <= ls@.len(),
                views(ls@) == lv,
                diskstats_fit(lv),
                disks@.map_values(|d: DiskIo| d@) == disks_of(lv.take(i as int)),
                views(names@) == disk_names(disks_of(lv.take(i as int))),
            decreases ls@.len() - i,
        {
            assert(lv.take(i + 1).drop_last() =~= lv.take(i as int));
            assert(lv[i as int] == ls@[i as int]@);
            assert(lv.take(i + 1).last() == lv[i as int]);
            let w = split_ws(ls[i].as_slice());
            if w.len() >= 14 {
                assert(views(w@)[2] == w@[2]@);
                let name = w[2].as_slice();
                let digit_end = name.len() > 0 && '0' <= name[name.len() - 1] && name[name.len() - 1]
                    <= '9';
                let whole = !digit_end || (starts_with_str(name, "nvme") && contains_str(name, "n1")
                    && !contains_str(name, "p"));
                if whole {
                    let read_sectors = field_u64(&w, 5);
                    let write_sectors = field_u64(&w, 9);
                    let d = DiskIo {
                        device: string_of(name),
                        read_bytes: read_sectors * 512,
                        write_bytes: write_sectors * 512,
                        read_ops: field_u64(&w, 3),
                        write_ops: field_u64(&w, 7),
                    };
                    let ghost prev = disks_of(lv.take(i as int));
                    assert(disk_line(lv[i as int]) == Some(d@));
                    proof {
                        lemma_position_bound(disk_names(prev), d@.device);
                    }
                    match position_exec(&names, name) {
                        Some(k) => {
                            let ghost before = disks@;
                            assert(disk_names(prev)[k as int] == prev[k as int].device);
                            assert(disk_upsert(prev, d@) == prev.update(k as int, d@));
                            disks.set(k, d);
                            assert(disks@.map_values(|x: DiskIo| x@) =~= prev.update(k as int, d@));
                            assert(disk_names(prev.update(k as int, d@)) =~= disk_names(prev));
                        },
                        None => {
                            let ghost before = disks@;
                            let ghost nb = names@;
                            names.push(crate::text::copy_of(name));
                            disks.push(d);
                            assert(disks@.map_values(|x: DiskIo| x@) =~= prev.push(d@));
                            assert(views(names@) =~= views(nb).push(name@));
                            assert(disk_names(prev.push(d@)) =~= disk_names(prev).push(name@));
                        },
                    }
                }
            }
            i = i + 1;
        }
        assert(lv.take(i as int) =~= lv);
        disks
    }

    /// The I/O counters of the interfaces other than loopback that
    /// `/proc/net/dev` lists, each once with its last counters.
    pub fn network_io(netdev: &str) -> (r: Vec<NetworkIo>)
        requires
            netdev_ok(lines(netdev@)),
        ensures
            r@.map_values(|d: NetworkIo| d@) == net_ios_of(lines(netdev@)),
    {
        let ls = lines_of(chars_of(netdev).as_slice());
        let ghost lv = lines(netdev@);
        let mut ios: Vec<NetworkIo> = Vec::new();
        let mut names: Vec<Vec<char>> = Vec::new();
        let mut i: usize = 0;
        assert(ios@.map_values(|d: NetworkIo| d@) =~= Seq::<NetIoView>::empty());
        assert(views(names@) =~= Seq::<Seq<char>>::empty());
        while i < ls.len()
            invariant
                i <= ls@.len(),
                views(ls@) == lv,
                netdev_ok(lv),
                ios@.map_values(|d: NetworkIo| d@) == net_ios_of(lv.take(i as int)),
                views(names@) == net_names(net_ios_of(lv.take(i as int))),
            decreases ls@.len() - i,
        {
            assert(lv.take(i + 1).drop_last() =~= lv.take(i as int));
            assert(lv[i as int] == ls@[i as int]@);
            assert(lv.take(i + 1).last() == lv[i as int]);
            if i >= 2 {
                let w = split_ws(ls[i].as_slice());
                if w.len() >= 11 {
                    assert(views(w@)[0] == w@[0]@);
                    let mut j: usize = w[0].len();
                    let first = w[0].as_slice();
                    assert(first@.take(j as int) =~= first@);
                    while j > 0 && first[j - 1] == ':'
                        invariant
                            j <= first@.len(),
                            trim_char_end(first@, ':') == trim_char_end(first@.take(j as int), ':'),
                        decreases j,
                    {
                        assert(first@.take(j as int).drop_last() =~= first@.take(j - 1));
                        j = j - 1;
                    }
                    let name = crate::text::slice_of(first, 0, j);
                    assert(name@ =~= first@.take(j as int));
                    if !eq_str(name.as_slice(), "lo") {
                        let d = NetworkIo {
                            interface: string_of(name.as_slice()),
                            rx_bytes: field_u64(&w, 1),
                            rx_packets: field_u64(&w, 2),
                            rx_errors: field_u64(&w, 3),
                            tx_bytes: field_u64(&w, 9),
                            tx_packets: field_u64(&w, 10),
                            tx_errors: field_u64(&w, 11),
                        };
                        let ghost prev = net_ios_of(lv.take(i as int));
                        assert(net_line(lv[i as int]) == Some(d@));
                        proof {
                            lemma_position_bound(net_names(prev), d@.interface);
                        }
                        match position_exec(&names, name.as_slice()) {
                            Some(k) => {
                                assert(net_names(prev)[k as int] == prev[k as int].interface);
                                assert(net_upsert(prev, d@) == prev.update(k as int, d@));
                                ios.set(k, d);
                                assert(ios@.map_values(|x: NetworkIo| x@) =~= prev.update(
                                    k as int,
                                    d@,
                                ));
                                assert(net_names(prev.update(k as int, d@)) =~= net_names(prev));
                            },
                            None => {
                                let ghost nb = names@;
                                names.push(crate::text::copy_of(name.as_slice()));
                                ios.push(d);
                                assert(ios@.map_values(|x: NetworkIo| x@) =~= prev.push(d@));
                                assert(views(names@) =~= views(nb).push(name@));
                                assert(net_names(prev.push(d@)) =~= net_names(prev).push(name@));
                            },
                        }
                    }
                }
            }
            i = i + 1;
        }
        assert(lv.take(i as int) =~= lv);
        ios
    }
}

// Processes

/// What `/proc/<pid>/stat` says of a process.
#[derive(Debug, Clone)]
pub struct ProcStat {
    pub name: String,
    pub state: ProcessState,
    pub utime: u64,
    pub stime: u64,
    pub threads: u32,
    pub rss_pages: u64,
}

/// `i` is the last position of `c` in `s`.
pub open spec fn is_last(s: Seq<char>, c: char, i: int) -> bool {
    0 <= i < s.len() && s[i] == c && forall|k: int| i < k < s.len() ==> s[k] != c
}

/// The last position of `c` in `s`, as `str::rfind` with a character gives
/// it.
pub open spec fn rfind_char(s: Seq<char>, c: char) -> Option<int> {
    if exists|i: int| is_last(s, c, i) {
        Some(choose|i: int| is_last(s, c, i))
    } else {
        None
    }
}

/// The state that the state letter of `/proc/<pid>/stat` names.
pub open spec fn process_state_of(w: Option<Seq<char>>) -> ProcessState {
    match w {
        Some(l) => if l == "R"@ {
            ProcessState::Running
        } else if l == "S"@ || l == "D"@ {
            ProcessState::Sleeping
        } else if l == "T"@ {
            ProcessState::Stopped
        } else if l == "Z"@ {
            ProcessState::Zombie
        } else {
            ProcessState::Unknown
        },
        None => ProcessState::Unknown,
    }
}

/// The value of the field at `i`, or `default`.
pub open spec fn field_or(w: Seq<Seq<char>>, i: int, max: nat, default: nat) -> nat {
    if 0 <= i < w.len() {
        match parse_unsigned(w[i], 10, max) {
            Some(v) => v,
            None => default,
        }
    } else {
        default
    }
}

/// The name between the first `(` and the last `)` of the stat line can be
/// cut out, and so can the fields after the space that follows: the `)`
/// comes after the `(` and is followed by a one-byte character.
pub open spec fn stat_cuttable(stat: Seq<char>) -> bool {
    match (find_char(stat, '('), rfind_char(stat, ')')) {
        (Some(a), Some(b)) => a < b && b + 1 < stat.len() && (stat[b + 1] as u32) < 0x80,
        _ => true,
    }
}

/// What a stat line gives: the name between the first `(` and the last
/// `)`, the state letter after it, then the user and system times, the
/// number of threads (1 when absent) and the resident pages.
pub open spec fn proc_stat_of(stat: Seq<char>) -> Option<(Seq<char>, ProcessState, nat, nat, nat, nat)> {
    match (find_char(stat, '('), rfind_char(stat, ')')) {
        (Some(a), Some(b)) => {
            let rest = words(stat.skip(b + 2));
            Some(
                (
                    stat.subrange(a + 1, b),
                    process_state_of(if rest.len() > 0 { Some(rest[0]) } else { None }),
                    field_or(rest, 11, u64::MAX as nat, 0),
                    field_or(rest, 12, u64::MAX as nat, 0),
                    field_or(rest, 17, u32::MAX as nat, 1),
                    field_or(rest, 21, u64::MAX as nat, 0),
                ),
            )
        },
        _ => None,
    }
}

fn rfind_char_exec(s: &[char], c: char) -> (r: Option<usize>)
    ensures
        match rfind_char(s@, c) {
            Some(i) => r == Some(i as usize),
            None => r is None,
        },
        r matches Some(i) ==> is_last(s@, c, i as int),
{
    let mut j: usize = s.len();
    while j > 0
        invariant
            j <= s@.len(),
            forall|k: int| j <= k < s@.len() ==> s@[k] != c,
        decreases j,
    {
        if s[j - 1] == c {
            assert(is_last(s@, c, j - 1));
            assert forall|m: int| is_last(s@, c, m) implies m == j - 1 by {}
            return Some(j - 1);
        }
        j = j - 1;
    }
    assert forall|m: int| !is_last(s@, c, m) by {}
    None
}

fn field_or_exec(w: &Vec<Vec<char>>, i: usize, max: u64, default: u64) -> (r: u64)
    ensures
        r == field_or(views(w@), i as int, max as nat, default as nat),
{
    if i < w.len() {
        assert(views(w@)[i as int] == w@[i as int]@);
        match parse_uint(w[i].as_slice(), 10, max) {
            Some(v) => v,
            None => default,
        }
    } else {
        default
    }
}

/// The first word of the `Uid:` line of `/proc/<pid>/status` after the
/// key, as a user id.
pub open spec fn status_uid(ls: Seq<Seq<char>>) -> Option<u32> {
    match first_with_prefix(ls, "Uid:"@) {
        Some(l) => if words(l).len() > 1 {
            match parse_unsigned(words(l)[1], 10, u32::MAX as nat) {
                Some(u) => Some(u as u32),
                None => None,
            }
        } else {
            None
        },
        None => None,
    }
}

/// `s` with each NUL character turned into a space.
pub open spec fn nul_to_space(s: Seq<char>) -> Seq<char> {
    s.map_values(|c: char| if c == '\0' { ' ' } else { c })
}

impl TelemetryBackend {
    /// What a line of `/proc/<pid>/stat` says of the process, when it holds
    /// a name in brackets.
    pub fn parse_process_stat(stat: &str) -> (r: Option<ProcStat>)
        requires
            stat_cuttable(stat@),
        ensures
            match proc_stat_of(stat@) {
                Some((name, state, utime, stime, threads, rss)) => r matches Some(p) && p.name@
                    == name && p.state == state && p.utime == utime && p.stime == stime
                    && p.threads == threads && p.rss_pages == rss,
                None => r is None,
            },
    {
        let s = chars_of(stat);
        let s = s.as_slice();
        let a = match crate::text::find_char_exec(s, '(') {
            Some(a) => a,
            None => {
                return None;
            },
        };
        let b = match rfind_char_exec(s, ')') {
            Some(b) => b,
            None => {
                return None;
            },
        };
        let name = crate::text::slice_of(s, a + 1, b);
        let after = crate::text::slice_of(s, b + 2, s.len());
        assert(after@ =~= stat@.skip(b + 2));
        let rest = split_ws(after.as_slice());
        let state = if rest.len() > 0 {
            assert(views(rest@)[0] == rest@[0]@);
            let l = rest[0].as_slice();
            if eq_str(l, "R") {
                ProcessState::Running
            } else if eq_str(l, "S") || eq_str(l, "D") {
                ProcessState::Sleeping
            } else if eq_str(l, "T") {
                ProcessState::Stopped
            } else if eq_str(l, "Z") {
                ProcessState::Zombie
            } else {
                ProcessState::Unknown
            }
        } else {
            ProcessState::Unknown
        };
        let utime = field_or_exec(&rest, 11, 0xffff_ffff_ffff_ffff, 0);
        let stime = field_or_exec(&rest, 12, 0xffff_ffff_ffff_ffff, 0);
        let threads = field_or_exec(&rest, 17, 0xffff_ffff, 1);
        let rss_pages = field_or_exec(&rest, 21, 0xffff_ffff_ffff_ffff, 0);
        Some(
            ProcStat {
                name: string_of(name.as_slice()),
                state,
                utime,
                stime,
                threads: threads as u32,
                rss_pages,
            },
        )
    }

    /// The command line of a process, its NUL separators turned into spaces
    /// and trimmed; `[name]` when it is empty or cannot be read.
    pub fn process_command(cmdline: Option<&str>, name: &str) -> (r: String)
        ensures
            r@ == (match cmdline {
                Some(c) if trim(nul_to_space(c@)).len() > 0 => trim(nul_to_space(c@)),
                _ => "["@ + name@ + "]"@,
            }),
    {
        if let Some(c) = cmdline {
            let cs = chars_of(c);
            let mut sp: Vec<char> = Vec::new();
            let mut i: usize = 0;
            while i < cs.len()
                invariant
                    i <= cs@.len(),
                    cs@ == c@,
                    sp@ == nul_to_space(cs@.take(i as int)),
                decreases cs@.len() - i,
            {
                sp.push(
                    if cs[i] == '\0' {
                        ' '
                    } else {
                        cs[i]
                    },
                );
                i = i + 1;
                assert(sp@ =~= nul_to_space(cs@.take(i as int)));
            }
            assert(cs@.take(i as int) =~= cs@);
            let t = trimmed(sp.as_slice());
            if t.len() > 0 {
                return string_of(t.as_slice());
            }
        }
        let mut r = chars_of("[");
        append_str(&mut r, name);
        append_str(&mut r, "]");
        string_of(r.as_slice())
    }

    /// The user id that `/proc/<pid>/status` gives.
    pub fn process_uid(status: &str) -> (r: Option<u32>)
        ensures
            r == status_uid(lines(status@)),
    {
        let ls = lines_of(chars_of(status).as_slice());
        match first_with_prefix_exec(&ls, "Uid:") {
            Some(l) => {
                let w = split_ws(l.as_slice());
                if w.len() > 1 {
                    assert(views(w@)[1] == w@[1]@);
                    match parse_uint(w[1].as_slice(), 10, 0xffff_ffff) {
                        Some(u) => Some(u as u32),
                        None => None,
                    }
                } else {
                    None
                }
            },
            None => None,
        }
    }
}


// CPU Statistics

/// The tick counters of one line of `/proc/stat`.
#[derive(Debug, Clone, Copy, PartialEq, Eq, Structural)]
pub struct CpuStat {
    pub user: u64,
    pub nice: u64,
    pub system: u64,
    pub idle: u64,
    pub iowait: u64,
    pub irq: u64,
    pub softirq: u64,
    pub steal: u64,
}

/// The words of `w` that read as unsigned 64-bit numbers, as numbers, in
/// order.
pub open spec fn numbers_of(w: Seq<Seq<char>>) -> Seq<u64>
    decreases w.len(),
{
    if w.len() == 0 {
        Seq::<u64>::empty()
    } else {
        match parse_unsigned(w.last(), 10, u64::MAX as nat) {
            Some(v) => numbers_of(w.drop_last()).push(v as u64),
            None => numbers_of(w.drop_last()),
        }
    }
}

/// The counters of a `cpu` line: the numbers after its first word, when
/// there are eight of them or more.
pub open spec fn cpu_stat_of(line: Seq<char>) -> Option<CpuStat> {
    let w = words(line);
    if !starts_with(line, "cpu"@) || w.len() == 0 {
        None
    } else {
        let n = numbers_of(w.skip(1));
        if n.len() >= 8 {
            Some(
                CpuStat {
                    user: n[0],
                    nice: n[1],
                    system: n[2],
                    idle: n[3],
                    iowait: n[4],
                    irq: n[5],
                    softirq: n[6],
                    steal: n[7],
                },
            )
        } else {
            None
        }
    }
}

/// The counters of the `cpu` lines, in order: the whole processor first,
/// then each core.
pub open spec fn cpu_stats_of(ls: Seq<Seq<char>>) -> Seq<CpuStat>
    decreases ls.len(),
{
    if ls.len() == 0 {
        Seq::<CpuStat>::empty()
    } else {
        match cpu_stat_of(ls.last()) {
            Some(c) => cpu_stats_of(ls.drop_last()).push(c),
            None => cpu_stats_of(ls.drop_last()),
        }
    }
}

impl TelemetryBackend {
    /// The tick counters of the `cpu` lines of `/proc/stat`.
    pub fn read_cpu_stats(stat: &str) -> (r: Vec<CpuStat>)
        ensures
            r@ == cpu_stats_of(lines(stat@)),
    {
        let ls = lines_of(chars_of(stat).as_slice());
        let mut r: Vec<CpuStat> = Vec::new();
        let mut i: usize = 0;
        assert(views(ls@).take(0) =~= Seq::<Seq<char>>::empty());
        while i < ls.len()
            invariant
                i <= ls@.len(),
                views(ls@) == lines(stat@),
                r@ == cpu_stats_of(views(ls@).take(i as int)),
            decreases ls@.len() - i,
        {
            assert(views(ls@).take(i + 1).drop_last() =~= views(ls@).take(i as int));
            assert(views(ls@)[i as int] == ls@[i as int]@);
            if starts_with_str(ls[i].as_slice(), "cpu") {
                let w = split_ws(ls[i].as_slice());
                if w.len() > 0 {
                    let mut n: Vec<u64> = Vec::new();
                    let mut k: usize = 1;
                    assert(views(w@).skip(1).take(0) =~= Seq::<Seq<char>>::empty());
                    while k < w.len()
                        invariant
                            1 <= k <= w@.len(),
                            n@ == numbers_of(views(w@).skip(1).take(k - 1)),
                        decreases w@.len() - k,
                    {
                        assert(views(w@).skip(1).take(k as int).drop_last() =~= views(
                            w@,
                        ).skip(1).take(k - 1));
                        assert(views(w@).skip(1)[k - 1] == w@[k as int]@);
                        match parse_uint(w[k].as_slice(), 10, 0xffff_ffff_ffff_ffff) {
                            Some(v) => {
                                n.push(v);
                            },
                            None => {},
                        }
                        k = k + 1;
                    }
                    assert(views(w@).skip(1).take(k - 1) =~= views(w@).skip(1));
                    if n.len() >= 8 {
                        r.push(
                            CpuStat {
                                user: n[0],
                                nice: n[1],
                                system: n[2],
                                idle: n[3],
                                iowait: n[4],
                                irq: n[5],
                                softirq: n[6],
                                steal: n[7],
                            },
                        );
                    }
                }
            }
            i = i + 1;
        }
        assert(views(ls@).take(i as int) =~= views(ls@));
        r
    }
}

// CPU Usage

/// How much the counters of one CPU line grew between two readings, in
/// ticks: all of them together, the idle ones (idle and I/O wait), and
/// user, system and I/O wait alone. A counter that went down counts as
/// zero.
#[derive(Debug, Clone, Copy, PartialEq, Eq, Structural)]
pub struct CpuDeltas {
    pub total: u64,
    pub idle: u64,
    pub user: u64,
    pub system: u64,
    pub iowait: u64,
}

/// The sum of all the counters of a CPU line.
pub open spec fn all_ticks(c: CpuStat) -> int {
    c.user + c.nice + c.system + c.idle + c.iowait + c.irq + c.softirq + c.steal
}

/// The idle counters of a CPU line: idle and I/O wait.
pub open spec fn idle_ticks(c: CpuStat) -> int {
    c.idle + c.iowait
}

/// `a - b`, or zero when `b` is larger.
pub open spec fn grown(a: int, b: int) -> int {
    if a >= b {
        a - b
    } else {
        0
    }
}

/// Whether the sums of a CPU line's counters fit in 64 bits.
pub open spec fn ticks_fit(c: CpuStat) -> bool {
    all_ticks(c) <= u64::MAX
}

/// The growth of the counters from `p` to `c`.
pub open spec fn deltas_of(p: CpuStat, c: CpuStat) -> CpuDeltas {
    CpuDeltas {
        total: grown(all_ticks(c), all_ticks(p)) as u64,
        idle: grown(idle_ticks(c), idle_ticks(p)) as u64,
        user: grown(c.user as int, p.user as int) as u64,
        system: grown(c.system as int, p.system as int) as u64,
        iowait: grown(c.iowait as int, p.iowait as int) as u64,
    }
}

fn saturating_minus(a: u64, b: u64) -> (r: u64)
    ensures
        r == grown(a as int, b as int),
{
    if a >= b {
        a - b
    } else {
        0
    }
}

impl TelemetryBackend {
    /// How the counters of one CPU line grew from `prev` to `curr`.
    pub fn cpu_deltas(prev: &CpuStat, curr: &CpuStat) -> (r: CpuDeltas)
        requires
            ticks_fit(*prev),
            ticks_fit(*curr),
        ensures
            r == deltas_of(*prev, *curr),
    {
        let prev_idle = prev.idle + prev.iowait;
        let curr_idle = curr.idle + curr.iowait;
        let prev_total = prev.user + prev.nice + prev.system + prev.idle + prev.iowait + prev.irq
            + prev.softirq + prev.steal;
        let curr_total = curr.user + curr.nice + curr.system + curr.idle + curr.iowait + curr.irq
            + curr.softirq + curr.steal;
        CpuDeltas {
            total: saturating_minus(curr_total, prev_total),
            idle: saturating_minus(curr_idle, prev_idle),
            user: saturating_minus(curr.user, prev.user),
            system: saturating_minus(curr.system, prev.system),
            iowait: saturating_minus(curr.iowait, prev.iowait),
        }
    }

    /// The growth of the counters between two readings of `/proc/stat`:
    /// that of the overall line, when both readings have one, and that of
    /// each core line that both readings have, in order.
    pub fn cpu_usage_deltas(prev: &[CpuStat], curr: &[CpuStat]) -> (r: (
        Option<CpuDeltas>,
        Vec<CpuDeltas>,
    ))
        requires
            forall|k: int| 0 <= k < prev@.len() ==> ticks_fit(#[trigger] prev@[k]),
            forall|k: int| 0 <= k < curr@.len() ==> ticks_fit(#[trigger] curr@[k]),
        ensures
            r.0 == (if prev@.len() > 0 && curr@.len() > 0 {
                Some(deltas_of(prev@[0], curr@[0]))
            } else {
                None
            }),
            r.1@.len() == (if prev@.len() > 0 && curr@.len() > 0 {
                if prev@.len() < curr@.len() {
                    prev@.len() - 1
                } else {
                    curr@.len() - 1
                }
            } else {
                0
            }),
            forall|k: int|
                0 <= k < r.1@.len() ==> #[trigger] r.1@[k] == deltas_of(prev@[k + 1], curr@[k + 1]),
    {
        let overall = if prev.len() > 0 && curr.len() > 0 {
            Some(Self::cpu_deltas(&prev[0], &curr[0]))
        } else {
            None
        };
        let n: usize = if prev.len() < curr.len() {
            prev.len()
        } else {
            curr.len()
        };
        let mut cores: Vec<CpuDeltas> = Vec::new();
        let mut i: usize = 1;
        while i < n
            invariant
                1 <= i,
                (prev@.len() < curr@.len() ==> n == prev@.len()),
                (prev@.len() >= curr@.len() ==> n == curr@.len()),
                i <= n || (n == 0 && i == 1),
                cores@.len() == i - 1,
                forall|k: int| 0 <= k < prev@.len() ==> ticks_fit(#[trigger] prev@[k]),
                forall|k: int| 0 <= k < curr@.len() ==> ticks_fit(#[trigger] curr@[k]),
                forall|k: int|
                    0 <= k < cores@.len() ==> #[trigger] cores@[k] == deltas_of(
                        prev@[k + 1],
                        curr@[k + 1],
                    ),
            decreases n - i,
        {
            let d = Self::cpu_deltas(&prev[i], &curr[i]);
            cores.push(d);
            i = i + 1;
        }
        (overall, cores)
    }
}

// Temperature Sensors

/// The files of one temperature input of a hardware monitor: its label,
/// input, maximum and critical files, where readable.
#[derive(Debug, Clone)]
pub struct TemperatureFiles {
    pub label: Option<String>,
    pub input: Option<String>,
    pub max: Option<String>,
    pub crit: Option<String>,
}

/// A temperature reading, in thousandths of a degree Celsius as the kernel
/// gives them.
#[derive(Debug, Clone)]
pub struct TemperatureReading {
    pub label: String,
    pub current_millicelsius: i32,
    pub high_millicelsius: Option<i32>,
    pub critical_millicelsius: Option<i32>,
}

/// The number that a temperature file holds, trimmed.
pub open spec fn millidegrees(f: Option<String>) -> Option<i32> {
    match opt_o(f) {
        Some(c) => match parse_signed(trim(c), 10, i32::MIN as int, i32::MAX as nat) {
            Some(v) => Some(v as i32),
            None => None,
        },
        None => None,
    }
}

/// The label of temperature input `i` of a sensor without a label file.
pub open spec fn temp_default_label(sensor: Seq<char>, i: nat) -> Seq<char> {
    sensor + " temp"@ + decimal(i)
}

/// The readings of the temperature inputs `t` of a sensor, numbered from
/// `first`.
pub open spec fn temps_of(sensor: Seq<char>, t: Seq<TemperatureFiles>, first: nat) -> Seq<
    (Seq<char>, i32, Option<i32>, Option<i32>),
>
    decreases t.len(),
{
    if t.len() == 0 {
        Seq::<(Seq<char>, i32, Option<i32>, Option<i32>)>::empty()
    } else {
        let x = t.last();
        let i = (first + t.len() - 1) as nat;
        temps_of(sensor, t.drop_last(), first).push(
            (
                match opt_o(x.label) {
                    Some(l) => trim(l),
                    None => temp_default_label(sensor, i),
                },
                match millidegrees(x.input) {
                    Some(v) => v,
                    None => 0,
                },
                millidegrees(x.max),
                millidegrees(x.crit),
            ),
        )
    }
}

fn millidegrees_exec(f: &Option<String>) -> (r: Option<i32>)
    ensures
        r == millidegrees(*f),
{
    match f {
        Some(c) => match parse_int(
            trimmed(chars_of(c.as_str()).as_slice()).as_slice(),
            10,
            -2147483648,
            2147483647,
        ) {
            Some(v) => Some(v as i32),
            None => None,
        },
        None => None,
    }
}

// GPU Telemetry

/// The power draw of a GPU as its source gives it: watts as `nvidia-smi`
/// prints them, or microwatts from the kernel.
#[derive(Debug, Clone, PartialEq, Eq)]
pub enum GpuPower {
    WattsText(String),
    Microwatts(u64),
}

#[derive(Debug, Clone)]
pub struct GpuInfo {
    pub name: String,
    pub vendor: String,
    pub driver: String,
    pub vram_total_mb: Option<u32>,
    pub vram_used_mb: Option<u32>,
    pub utilization_percent: Option<u8>,
    pub temperature_celsius: Option<u8>,
    pub power: Option<GpuPower>,
}

/// What the power of a GPU reading holds.
pub enum PowerView {
    WattsText(Seq<char>),
    Microwatts(u64),
}

/// What a GPU reading holds.
pub struct GpuView {
    pub name: Seq<char>,
    pub vendor: Seq<char>,
    pub driver: Seq<char>,
    pub vram_total_mb: Option<u32>,
    pub vram_used_mb: Option<u32>,
    pub utilization_percent: Option<u8>,
    pub temperature_celsius: Option<u8>,
    pub power: Option<PowerView>,
}

impl View for GpuInfo {
    type V = GpuView;

    open spec fn view(&self) -> GpuView {
        GpuView {
            name: self.name@,
            vendor: self.vendor@,
            driver: self.driver@,
            vram_total_mb: self.vram_total_mb,
            vram_used_mb: self.vram_used_mb,
            utilization_percent: self.utilization_percent,
            temperature_celsius: self.temperature_celsius,
            power: match self.power {
                Some(GpuPower::WattsText(t)) => Some(PowerView::WattsText(t@)),
                Some(GpuPower::Microwatts(m)) => Some(PowerView::Microwatts(m)),
                None => None,
            },
        }
    }
}

/// The views of a sequence of GPU readings.
pub open spec fn gpu_views(v: Seq<GpuInfo>) -> Seq<GpuView> {
    v.map_values(|g: GpuInfo| g@)
}

/// A number of `nvidia-smi`'s output that fits in `max`.
pub open spec fn field_number(s: Seq<char>, max: nat) -> Option<nat> {
    parse_unsigned(s, 10, max)
}

/// The GPU that `nvidia-smi --query-gpu=name,driver_version,memory.total,
/// memory.used,utilization.gpu,temperature.gpu,power.draw
/// --format=csv,noheader,nounits` describes: seven fields or more,
/// separated by a comma and a space.
pub open spec fn nvidia_of(output: Seq<char>) -> Option<GpuView> {
    let p = split_str(trim(output), ", "@);
    if p.len() >= 7 {
        Some(
            GpuView {
                name: p[0],
                vendor: "NVIDIA"@,
                driver: p[1],
                vram_total_mb: match field_number(p[2], u32::MAX as nat) {
                    Some(v) => Some(v as u32),
                    None => None,
                },
                vram_used_mb: match field_number(p[3], u32::MAX as nat) {
                    Some(v) => Some(v as u32),
                    None => None,
                },
                utilization_percent: match field_number(p[4], u8::MAX as nat) {
                    Some(v) => Some(v as u8),
                    None => None,
                },
                temperature_celsius: match field_number(p[5], u8::MAX as nat) {
                    Some(v) => Some(v as u8),
                    None => None,
                },
                power: Some(PowerView::WattsText(p[6])),
            },
        )
    } else {
        None
    }
}

/// The pieces of `s` between the occurrences of `sep` (not empty), as
/// `str::split` with a string pattern cuts them.
pub open spec fn split_str(s: Seq<char>, sep: Seq<char>) -> Seq<Seq<char>>
    decreases s.len(),
{
    match find_str(s, sep) {
        Some(i) => if sep.len() > 0 {
            seq![s.take(i)] + split_str(s.skip(i + sep.len()), sep)
        } else {
            seq![s]
        },
        None => seq![s],
    }
}

/// The files of one hardware monitor that the AMD reading looks at.
#[derive(Debug, Clone)]
pub struct HwmonFiles {
    pub name: Option<String>,
    pub temp1_input: Option<String>,
    pub power1_average: Option<String>,
}

/// The AMD GPU that a hardware monitor named `amdgpu` stands for.
pub open spec fn amd_of(h: HwmonFiles) -> Option<GpuView> {
    let name = match opt_o(h.name) {
        Some(n) => trim(n),
        None => Seq::<char>::empty(),
    };
    if name == "amdgpu"@ {
        Some(
            GpuView {
                name: "AMD GPU"@,
                vendor: "AMD"@,
                driver: "amdgpu"@,
                vram_total_mb: None,
                vram_used_mb: None,
                utilization_percent: None,
                temperature_celsius: match opt_o(h.temp1_input) {
                    Some(t) => match parse_unsigned(trim(t), 10, u32::MAX as nat) {
                        Some(v) => Some(((v / 1000) % 256) as u8),
                        None => None,
                    },
                    None => None,
                },
                power: match opt_o(h.power1_average) {
                    Some(p) => match parse_unsigned(trim(p), 10, u64::MAX as nat) {
                        Some(v) => Some(PowerView::Microwatts(v as u64)),
                        None => None,
                    },
                    None => None,
                },
            },
        )
    } else {
        None
    }
}

/// The AMD GPUs among the hardware monitors, in order.
pub open spec fn amds_of(h: Seq<HwmonFiles>) -> Seq<GpuView>
    decreases h.len(),
{
    if h.len() == 0 {
        Seq::<GpuView>::empty()
    } else {
        match amd_of(h.last()) {
            Some(g) => amds_of(h.drop_last()).push(g),
            None => amds_of(h.drop_last()),
        }
    }
}

/// One entry of the kernel's DRM class: its name, its device's `vendor`
/// file and the target of its device's `driver` link, where readable.
#[derive(Debug, Clone)]
pub struct DrmCard {
    pub name: String,
    pub vendor: Option<String>,
    pub driver_link: Option<String>,
}

/// A DRM entry that is a whole card, not one of its connectors.
pub open spec fn is_card(name: Seq<char>) -> bool {
    starts_with(name, "card"@) && !name.contains('-')
}

/// The parts of a path that name something: those between slashes that
/// are neither empty nor `.`.
pub open spec fn named_components(p: Seq<Seq<char>>) -> Seq<Seq<char>>
    decreases p.len(),
{
    if p.len() == 0 {
        p
    } else if p.last().len() > 0 && p.last() != "."@ {
        named_components(p.drop_last()).push(p.last())
    } else {
        named_components(p.drop_last())
    }
}

/// The final component of a path, as `Path::file_name` gives it: none when
/// the path has no component or ends in `..`.
pub open spec fn path_file_name(path: Seq<char>) -> Option<Seq<char>> {
    let c = named_components(split(path, '/'));
    if c.len() == 0 || c.last() == ".."@ {
        None
    } else {
        Some(c.last())
    }
}

fn path_file_name_exec(path: &str) -> (r: Option<Vec<char>>)
    ensures
        match r {
            Some(x) => path_file_name(path@) == Some(x@),
            None => path_file_name(path@) is None,
        },
{
    let parts = split_on(chars_of(path).as_slice(), '/');
    let ghost v = views(parts@);
    let mut k: usize = parts.len();
    assert(v.take(k as int) =~= v);
    while k > 0
        invariant
            k <= parts@.len(),
            v == views(parts@),
            v == split(path@, '/'),
            named_components(v.take(k as int)) == named_components(v),
        decreases k,
    {
        assert(v.take(k as int).drop_last() =~= v.take(k - 1));
        assert(v.take(k as int).last() == parts@[k - 1]@);
        let piece = &parts[k - 1];
        if piece.len() > 0 && !eq_str(piece.as_slice(), ".") {
            if eq_str(piece.as_slice(), "..") {
                return None;
            }
            return Some(copy_of(piece.as_slice()));
        }
        k = k - 1;
    }
    assert(v.take(0) =~= Seq::<Seq<char>>::empty());
    None
}

/// Whether a card is an Intel device.
pub open spec fn is_intel(c: DrmCard) -> bool {
    is_card(c.name@) && match opt_o(c.vendor) {
        Some(v) => trim(v) == "0x8086"@,
        None => false,
    }
}

/// The GPU of a DRM card: its vendor code and driver, where they read.
pub open spec fn drm_of(c: DrmCard) -> GpuView {
    GpuView {
        name: "GPU "@ + c.name@,
        vendor: match opt_o(c.vendor) {
            Some(v) => trim(v),
            None => "Unknown"@,
        },
        driver: match opt_o(c.driver_link) {
            Some(l) => match path_file_name(l) {
                Some(n) => n,
                None => "Unknown"@,
            },
            None => "Unknown"@,
        },
        vram_total_mb: None,
        vram_used_mb: None,
        utilization_percent: None,
        temperature_celsius: None,
        power: None,
    }
}

/// The GPUs of the whole cards among the DRM entries, in order.
pub open spec fn drms_of(c: Seq<DrmCard>) -> Seq<GpuView>
    decreases c.len(),
{
    if c.len() == 0 {
        Seq::<GpuView>::empty()
    } else if is_card(c.last().name@) {
        drms_of(c.drop_last()).push(drm_of(c.last()))
    } else {
        drms_of(c.drop_last())
    }
}

/// The Intel integrated GPU.
pub open spec fn intel_gpu_view() -> GpuView {
    GpuView {
        name: "Intel Integrated Graphics"@,
        vendor: "Intel"@,
        driver: "i915"@,
        vram_total_mb: None,
        vram_used_mb: None,
        utilization_percent: None,
        temperature_celsius: None,
        power: None,
    }
}

/// Whether some DRM entry is an Intel card.
pub open spec fn has_intel(c: Seq<DrmCard>) -> bool {
    exists|k: int| 0 <= k < c.len() && is_intel(#[trigger] c[k])
}

/// The GPUs found: the NVIDIA one, the AMD ones and the Intel one, or,
/// when there is none of them, every DRM card.
pub open spec fn gpus_of(nvidia: Option<Seq<char>>, hwmon: Seq<HwmonFiles>, drm: Seq<DrmCard>) -> Seq<
    GpuView,
> {
    let n = match nvidia {
        Some(o) => match nvidia_of(o) {
            Some(g) => seq![g],
            None => Seq::<GpuView>::empty(),
        },
        None => Seq::<GpuView>::empty(),
    };
    let i = if has_intel(drm) {
        seq![intel_gpu_view()]
    } else {
        Seq::<GpuView>::empty()
    };
    let all = n + amds_of(hwmon) + i;
    if all.len() > 0 {
        all
    } else {
        drms_of(drm)
    }
}

/// The pieces of `s` between the occurrences of `", "`.
fn split_comma_space(s: &[char]) -> (r: Vec<Vec<char>>)
    ensures
        views(r@) == split_str(s@, ", "@),
    decreases s@.len(),
{
    let sep = chars_of(", ");
    proof {
        reveal_strlit(", ");
    }
    match crate::text::find_str_exec(s, sep.as_slice()) {
        Some(i) => {
            let head = slice_of(s, 0, i);
            let n = s.len();
            let tail = slice_of(s, i + 2, n);
            let mut rest = split_comma_space(tail.as_slice());
            let mut r: Vec<Vec<char>> = Vec::new();
            r.push(head);
            let ghost h = r@;
            r.append(&mut rest);
            assert(head@ =~= s@.take(i as int));
            assert(tail@ =~= s@.skip(i + 2));
            assert(views(r@) =~= seq![s@.take(i as int)] + split_str(s@.skip(i + 2), ", "@));
            r
        },
        None => {
            let mut r: Vec<Vec<char>> = Vec::new();
            r.push(copy_of(s));
            assert(views(r@) =~= seq![s@]);
            r
        },
    }
}

impl TelemetryBackend {
    /// The readings of the temperature inputs of a hardware monitor, from
    /// its `name` file and the files of its inputs in order (at most
    /// nineteen are read).
    pub fn temperatures(sensor_name: Option<&str>, inputs: &[TemperatureFiles]) -> (r: Vec<
        TemperatureReading,
    >)
        ensures
            r@.map_values(
                |t: TemperatureReading|
                    (t.label@, t.current_millicelsius, t.high_millicelsius, t.critical_millicelsius),
            ) == temps_of(
                match sensor_name {
                    Some(n) => trim(n@),
                    None => "unknown"@,
                },
                inputs@.take(if inputs@.len() < 19 { inputs@.len() as int } else { 19 }),
                1,
            ),
    {
        let sensor = match sensor_name {
            Some(n) => trimmed(chars_of(n).as_slice()),
            None => chars_of("unknown"),
        };
        let n: usize = if inputs.len() < 19 {
            inputs.len()
        } else {
            19
        };
        let ghost f = inputs@.take(n as int);
        let mut r: Vec<TemperatureReading> = Vec::new();
        let mut i: usize = 0;
        assert(f.take(0) =~= Seq::<TemperatureFiles>::empty());
        assert(r@.map_values(
            |t: TemperatureReading|
                (t.label@, t.current_millicelsius, t.high_millicelsius, t.critical_millicelsius),
        ) =~= Seq::<(Seq<char>, i32, Option<i32>, Option<i32>)>::empty());
        while i < n
            invariant
                i <= n <= inputs@.len(),
                n <= 19,
                f == inputs@.take(n as int),
                r@.map_values(
                    |t: TemperatureReading|
                        (t.label@, t.current_millicelsius, t.high_millicelsius, t.critical_millicelsius),
                ) == temps_of(sensor@, f.take(i as int), 1),
            decreases n - i,
        {
            assert(f.take(i + 1).drop_last() =~= f.take(i as int));
            assert(f.take(i + 1).last() == inputs@[i as int]);
            let x = &inputs[i];
            let label = match &x.label {
                Some(l) => trimmed(chars_of(l.as_str()).as_slice()),
                None => {
                    let mut d = sensor.clone();
                    append_str(&mut d, " temp");
                    let num = decimal_of((i + 1) as u64);
                    append(&mut d, num.as_slice());
                    d
                },
            };
            let current = match millidegrees_exec(&x.input) {
                Some(v) => v,
                None => 0,
            };
            let t = TemperatureReading {
                label: string_of(label.as_slice()),
                current_millicelsius: current,
                high_millicelsius: millidegrees_exec(&x.max),
                critical_millicelsius: millidegrees_exec(&x.crit),
            };
            let ghost before = r@;
            r.push(t);
            assert(r@.map_values(
                |t: TemperatureReading|
                    (t.label@, t.current_millicelsius, t.high_millicelsius, t.critical_millicelsius),
            ) =~= before.map_values(
                |t: TemperatureReading|
                    (t.label@, t.current_millicelsius, t.high_millicelsius, t.critical_millicelsius),
            ).push((t.label@, t.current_millicelsius, t.high_millicelsius, t.critical_millicelsius)));
            i = i + 1;
        }
        assert(f.take(i as int) =~= f);
        r
    }

    /// The NVIDIA GPU that the output of `nvidia-smi` describes, when it
    /// ran and succeeded.
    pub fn nvidia_gpu(output: Option<&str>) -> (r: Option<GpuInfo>)
        ensures
            match output {
                Some(o) => match nvidia_of(o@) {
                    Some(g) => r matches Some(x) && x@ == g,
                    None => r is None,
                },
                None => r is None,
            },
    {
        let o = match output {
            Some(o) => o,
            None => {
                return None;
            },
        };
        let p = split_comma_space(trimmed(chars_of(o).as_slice()).as_slice());
        if p.len() < 7 {
            return None;
        }
        assert(forall|k: int| 0 <= k < 7 ==> views(p@)[k] == p@[k]@);
        let num = |k: usize, max: u64| -> (v: Option<u64>)
            requires
                k < p@.len(),
            ensures
                match parse_unsigned(p@[k as int]@, 10, max as nat) {
                    Some(x) => v == Some(x as u64),
                    None => v is None,
                },
            { parse_uint(p[k].as_slice(), 10, max) };
        Some(
            GpuInfo {
                name: string_of(p[0].as_slice()),
                vendor: crate::text::string_from("NVIDIA"),
                driver: string_of(p[1].as_slice()),
                vram_total_mb: match num(2, 0xffff_ffff) {
                    Some(v) => Some(v as u32),
                    None => None,
                },
                vram_used_mb: match num(3, 0xffff_ffff) {
                    Some(v) => Some(v as u32),
                    None => None,
                },
                utilization_percent: match num(4, 0xff) {
                    Some(v) => Some(v as u8),
                    None => None,
                },
                temperature_celsius: match num(5, 0xff) {
                    Some(v) => Some(v as u8),
                    None => None,
                },
                power: Some(GpuPower::WattsText(string_of(p[6].as_slice()))),
            },
        )
    }

    /// The AMD GPUs among the hardware monitors.
    pub fn amd_gpus(hwmon: &[HwmonFiles]) -> (r: Vec<GpuInfo>)
        ensures
            gpu_views(r@) == amds_of(hwmon@),
    {
        let mut r: Vec<GpuInfo> = Vec::new();
        let mut i: usize = 0;
        let n = hwmon.len();
        assert(hwmon@.take(0) =~= Seq::<HwmonFiles>::empty());
        assert(gpu_views(r@) =~= Seq::<GpuView>::empty());
        while i < n
            invariant
                i <= n,
                n == hwmon@.len(),
                gpu_views(r@) == amds_of(hwmon@.take(i as int)),
            decreases n - i,
        {
            assert(hwmon@.take(i + 1).drop_last() =~= hwmon@.take(i as int));
            let h = &hwmon[i];
            let name = match &h.name {
                Some(c) => trimmed(chars_of(c.as_str()).as_slice()),
                None => Vec::new(),
            };
            if crate::text::eq_str(name.as_slice(), "amdgpu") {
                let temp = match &h.temp1_input {
                    Some(t) => match parse_uint(
                        trimmed(chars_of(t.as_str()).as_slice()).as_slice(),
                        10,
                        0xffff_ffff,
                    ) {
                        Some(v) => Some(((v / 1000) % 256) as u8),
                        None => None,
                    },
                    None => None,
                };
                let power = match &h.power1_average {
                    Some(p) => match parse_uint(
                        trimmed(chars_of(p.as_str()).as_slice()).as_slice(),
                        10,
                        0xffff_ffff_ffff_ffff,
                    ) {
                        Some(v) => Some(GpuPower::Microwatts(v)),
                        None => None,
                    },
                    None => None,
                };
                let g = GpuInfo {
                    name: crate::text::string_from("AMD GPU"),
                    vendor: crate::text::string_from("AMD"),
                    driver: crate::text::string_from("amdgpu"),
                    vram_total_mb: None,
                    vram_used_mb: None,
                    utilization_percent: None,
                    temperature_celsius: temp,
                    power,
                };
                let ghost before = gpu_views(r@);
                r.push(g);
                assert(gpu_views(r@) =~= before.push(g@));
            }
            i = i + 1;
        }
        assert(hwmon@.take(i as int) =~= hwmon@);
        r
    }

    /// Whether a DRM entry is a whole card (not a connector).
    fn card_exec(name: &str) -> (r: bool)
        ensures
            r == is_card(name@),
    {
        let c = chars_of(name);
        let mut i: usize = 0;
        let mut dash = false;
        while i < c.len()
            invariant
                i <= c@.len(),
                c@ == name@,
                dash == c@.take(i as int).contains('-'),
            decreases c@.len() - i,
        {
            assert(c@.take(i + 1) =~= c@.take(i as int).push(c@[i as int]));
            proof {
                vstd::seq_lib::lemma_seq_contains_after_push(c@.take(i as int), c@[i as int], '-');
            }
            if c[i] == '-' {
                dash = true;
            }
            i = i + 1;
        }
        assert(c@.take(i as int) =~= c@);
        starts_with_str(c.as_slice(), "card") && !dash
    }

    /// The Intel integrated GPU, when a DRM card has Intel's vendor code.
    pub fn intel_gpu(drm: &[DrmCard]) -> (r: Option<GpuInfo>)
        ensures
            has_intel(drm@) ==> (r matches Some(g) && g@ == intel_gpu_view()),
            !has_intel(drm@) ==> r is None,
    {
        let mut i: usize = 0;
        let n = drm.len();
        while i < n
            invariant
                i <= n,
                n == drm@.len(),
                forall|k: int| 0 <= k < i ==> !is_intel(#[trigger] drm@[k]),
            decreases n - i,
        {
            let c = &drm[i];
            if Self::card_exec(c.name.as_str()) {
                if let Some(v) = &c.vendor {
                    if crate::text::eq_str(trimmed(chars_of(v.as_str()).as_slice()).as_slice(), "0x8086") {
                        return Some(
                            GpuInfo {
                                name: crate::text::string_from("Intel Integrated Graphics"),
                                vendor: crate::text::string_from("Intel"),
                                driver: crate::text::string_from("i915"),
                                vram_total_mb: None,
                                vram_used_mb: None,
                                utilization_percent: None,
                                temperature_celsius: None,
                                power: None,
                            },
                        );
                    }
                }
            }
            i = i + 1;
        }
        None
    }

    /// The GPUs of the whole cards among the DRM entries.
    pub fn drm_gpus(drm: &[DrmCard]) -> (r: Vec<GpuInfo>)
        ensures
            gpu_views(r@) == drms_of(drm@),
    {
        let mut r: Vec<GpuInfo> = Vec::new();
        let mut i: usize = 0;
        let n = drm.len();
        assert(drm@.take(0) =~= Seq::<DrmCard>::empty());
        assert(gpu_views(r@) =~= Seq::<GpuView>::empty());
        while i < n
            invariant
                i <= n,
                n == drm@.len(),
                gpu_views(r@) == drms_of(drm@.take(i as int)),
            decreases n - i,
        {
            assert(drm@.take(i + 1).drop_last() =~= drm@.take(i as int));
            let c = &drm[i];
            if Self::card_exec(c.name.as_str()) {
                let mut name = chars_of("GPU ");
                append(&mut name, chars_of(c.name.as_str()).as_slice());
                let vendor = match &c.vendor {
                    Some(v) => string_of(trimmed(chars_of(v.as_str()).as_slice()).as_slice()),
                    None => crate::text::string_from("Unknown"),
                };
                let driver = match &c.driver_link {
                    Some(l) => match path_file_name_exec(l.as_str()) {
                        Some(n) => string_of(n.as_slice()),
                        None => crate::text::string_from("Unknown"),
                    },
                    None => crate::text::string_from("Unknown"),
                };
                let g = GpuInfo {
                    name: string_of(name.as_slice()),
                    vendor,
                    driver,
                    vram_total_mb: None,
                    vram_used_mb: None,
                    utilization_percent: None,
                    temperature_celsius: None,
                    power: None,
                };
                let ghost before = gpu_views(r@);
                r.push(g);
                assert(gpu_views(r@) =~= before.push(g@));
            }
            i = i + 1;
        }
        assert(drm@.take(i as int) =~= drm@);
        r
    }

    /// The GPUs: the NVIDIA one (from `nvidia-smi`'s output, when it ran),
    /// the AMD ones, the Intel one, or every DRM card when none of those is
    /// found.
    pub fn gpu_info(nvidia: Option<&str>, hwmon: &[HwmonFiles], drm: &[DrmCard]) -> (r: Vec<GpuInfo>)
        ensures
            gpu_views(r@) == gpus_of(
                match nvidia {
                    Some(o) => Some(o@),
                    None => None,
                },
                hwmon@,
                drm@,
            ),
    {
        let mut gpus: Vec<GpuInfo> = Vec::new();
        let ghost nv = match nvidia {
            Some(o) => Some(o@),
            None => None::<Seq<char>>,
        };
        match Self::nvidia_gpu(nvidia) {
            Some(g) => {
                gpus.push(g);
            },
            None => {},
        }
        let ghost n0 = gpu_views(gpus@);
        assert(n0 =~= match nv {
            Some(o) => match nvidia_of(o) {
                Some(g) => seq![g],
                None => Seq::<GpuView>::empty(),
            },
            None => Seq::<GpuView>::empty(),
        });
        let mut amd = Self::amd_gpus(hwmon);
        gpus.append(&mut amd);
        let ghost n1 = gpu_views(gpus@);
        assert(n1 =~= n0 + amds_of(hwmon@));
        match Self::intel_gpu(drm) {
            Some(g) => {
                gpus.push(g);
                assert(gpu_views(gpus@) =~= n1 + seq![intel_gpu_view()]);
            },
            None => {
                assert(gpu_views(gpus@) =~= n1 + Seq::<GpuView>::empty());
            },
        }
        if gpus.len() == 0 {
            let r = Self::drm_gpus(drm);
            r
        } else {
            gpus
        }
    }
}

// Disk Information

/// A mounted filesystem: its device, mount point and filesystem type.
#[derive(Debug, Clone)]
pub struct MountEntry {
    pub device: String,
    pub mount_point: String,
    pub filesystem: String,
}

/// The mount that a line of `/proc/mounts` describes, when it is of a
/// device under `/dev/` and not a squashfs image.
pub open spec fn mount_of(line: Seq<char>) -> Option<(Seq<char>, Seq<char>, Seq<char>)> {
    let w = words(line);
    if w.len() >= 3 && starts_with(w[0], "/dev/"@) && w[2] != "squashfs"@ {
        Some((w[0], w[1], w[2]))
    } else {
        None
    }
}

/// The disk mounts of the lines `ls`, in order.
pub open spec fn mounts_of(ls: Seq<Seq<char>>) -> Seq<(Seq<char>, Seq<char>, Seq<char>)>
    decreases ls.len(),
{
    if ls.len() == 0 {
        Seq::<(Seq<char>, Seq<char>, Seq<char>)>::empty()
    } else {
        match mount_of(ls.last()) {
            Some(m) => mounts_of(ls.drop_last()).push(m),
            None => mounts_of(ls.drop_last()),
        }
    }
}

impl TelemetryBackend {
    /// The disk mounts that `/proc/mounts` lists.
    pub fn disk_mounts(mounts: &str) -> (r: Vec<MountEntry>)
        ensures
            r@.map_values(|m: MountEntry| (m.device@, m.mount_point@, m.filesystem@)) == mounts_of(
                lines(mounts@),
            ),
    {
        let ls = lines_of(chars_of(mounts).as_slice());
        let mut r: Vec<MountEntry> = Vec::new();
        let mut i: usize = 0;
        assert(views(ls@).take(0) =~= Seq::<Seq<char>>::empty());
        assert(r@.map_values(|m: MountEntry| (m.device@, m.mount_point@, m.filesystem@))
            =~= Seq::<(Seq<char>, Seq<char>, Seq<char>)>::empty());
        while i < ls.len()
            invariant
                i <= ls@.len(),
                views(ls@) == lines(mounts@),
                r@.map_values(|m: MountEntry| (m.device@, m.mount_point@, m.filesystem@))
                    == mounts_of(views(ls@).take(i as int)),
            decreases ls@.len() - i,
        {
            assert(views(ls@).take(i + 1).drop_last() =~= views(ls@).take(i as int));
            assert(views(ls@)[i as int] == ls@[i as int]@);
            let w = split_ws(ls[i].as_slice());
            if w.len() >= 3 {
                assert(views(w@)[0] == w@[0]@);
                assert(views(w@)[1] == w@[1]@);
                assert(views(w@)[2] == w@[2]@);
                if starts_with_str(w[0].as_slice(), "/dev/") && !crate::text::eq_str(
                    w[2].as_slice(),
                    "squashfs",
                ) {
                    let m = MountEntry {
                        device: string_of(w[0].as_slice()),
                        mount_point: string_of(w[1].as_slice()),
                        filesystem: string_of(w[2].as_slice()),
                    };
                    let ghost before = r@;
                    r.push(m);
                    assert(r@.map_values(|m: MountEntry| (m.device@, m.mount_point@, m.filesystem@))
                        =~= before.map_values(
                        |m: MountEntry| (m.device@, m.mount_point@, m.filesystem@),
                    ).push((m.device@, m.mount_point@, m.filesystem@)));
                }
            }
            i = i + 1;
        }
        assert(views(ls@).take(i as int) =~= views(ls@));
        r
    }

    /// The total, used and available bytes of a filesystem from its block
    /// size and block counts: used is what is not free.
    pub fn disk_space(block_size: u64, blocks: u64, blocks_free: u64, blocks_available: u64) -> (r: (
        u64,
        u64,
        u64,
    ))
        requires
            blocks * block_size <= u64::MAX,
            blocks_free * block_size <= u64::MAX,
            blocks_available * block_size <= u64::MAX,
        ensures
            r.0 == blocks * block_size,
            r.1 == (if blocks * block_size >= blocks_free * block_size {
                blocks * block_size - blocks_free * block_size
            } else {
                0
            }),
            r.2 == blocks_available * block_size,
    {
        let total = blocks * block_size;
        let free = blocks_free * block_size;
        let available = blocks_available * block_size;
        let used = if total >= free {
            total - free
        } else {
            0
        };
        (total, used, available)
    }
}

} // verus!
