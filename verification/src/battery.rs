//! Battery monitoring: status, charge level, health, time estimates and a
//! history of readings.
use vstd::prelude::*;
use crate::duration::{duration_secs, duration_subsec_nanos};
use crate::text::{
    all_ascii, ascii_lower, chars_of, decimal, lowercase, lowercase_of, opt_chars, read_sysfs_i64, read_sysfs_string,
    read_sysfs_u64, string_of, sysfs_signed, sysfs_text, sysfs_unsigned, trim, trimmed,
    append, append_str, decimal_of, eq_str,
};

verus! {

/// Battery charging state
#[derive(Debug, Clone, Copy, PartialEq, Eq, Structural)]
pub enum BatteryState {
    /// Battery is charging
    Charging,
    /// Battery is discharging (on battery power)
    Discharging,
    /// Battery is full and on AC power
    Full,
    /// Battery is not charging (plugged in but not charging, e.g., threshold reached)
    NotCharging,
    /// Unknown state
    Unknown,
}

/// The state that a lower-cased status word names.
pub open spec fn state_of_lower(s: Seq<char>) -> BatteryState {
    if s == "charging"@ {
        BatteryState::Charging
    } else if s == "discharging"@ {
        BatteryState::Discharging
    } else if s == "full"@ {
        BatteryState::Full
    } else if s == "not charging"@ {
        BatteryState::NotCharging
    } else {
        BatteryState::Unknown
    }
}

/// The sysfs status words: each of "charging", "discharging", "full" and
/// "not charging" names its own state, and any other word is unknown.
pub proof fn law_status_words(s: Seq<char>)
    ensures
        (state_of_lower(s) == BatteryState::Charging) <==> s == "charging"@,
        (state_of_lower(s) == BatteryState::Discharging) <==> s == "discharging"@,
        (state_of_lower(s) == BatteryState::Full) <==> s == "full"@,
        (state_of_lower(s) == BatteryState::NotCharging) <==> s == "not charging"@,
{
    reveal_strlit("charging");
    reveal_strlit("discharging");
    reveal_strlit("full");
    reveal_strlit("not charging");
    assert("charging"@.len() == 8);
    assert("discharging"@.len() == 11);
    assert("full"@.len() == 4);
    assert("not charging"@.len() == 12);
}

impl BatteryState {
    /// The state that an already trimmed, lower-cased status word names.
    pub fn from_lower(s: &[char]) -> (r: Self)
        ensures
            r == state_of_lower(s@),
    {
        if eq_str(s, "charging") {
            BatteryState::Charging
        } else if eq_str(s, "discharging") {
            BatteryState::Discharging
        } else if eq_str(s, "full") {
            BatteryState::Full
        } else if eq_str(s, "not charging") {
            BatteryState::NotCharging
        } else {
            BatteryState::Unknown
        }
    }
}

impl<'a> From<&'a str> for BatteryState {
    fn from(s: &'a str) -> (r: Self)
        ensures
            all_ascii(trim(s@)) ==> r == state_of_lower(ascii_lower(trim(s@))),
    {
        let t = trimmed(chars_of(s).as_slice());
        let l = lowercase_of(t.as_slice());
        BatteryState::from_lower(l.as_slice())
    }
}

impl<'a> vstd::std_specs::convert::FromSpecImpl<&'a str> for BatteryState {
    open spec fn obeys_from_spec() -> bool {
        true
    }

    open spec fn from_spec(s: &'a str) -> Self {
        state_of_lower(lowercase(trim(s@)))
    }
}

/// Battery health status
#[derive(Debug, Clone, Copy, PartialEq, Eq, Structural)]
pub enum BatteryHealth {
    /// Battery is in good condition
    Good,
    /// Battery is degraded but functional
    Degraded,
    /// Battery needs replacement
    Critical,
    /// Health unknown
    Unknown,
}

/// Battery technology type
#[derive(Debug, Clone, PartialEq, Eq)]
pub enum BatteryTechnology {
    LithiumIon,
    LithiumPolymer,
    NickelMetalHydride,
    LeadAcid,
    Other(String),
    Unknown,
}

/// The technology that a lower-cased technology word names; `None` stands
/// for `Other` with that word.
pub open spec fn technology_of_lower(s: Seq<char>) -> Option<BatteryTechnology> {
    if s == "li-ion"@ || s == "lion"@ || s == "lithium-ion"@ {
        Some(BatteryTechnology::LithiumIon)
    } else if s == "li-poly"@ || s == "lipo"@ || s == "lithium-polymer"@ {
        Some(BatteryTechnology::LithiumPolymer)
    } else if s == "nimh"@ || s == "ni-mh"@ {
        Some(BatteryTechnology::NickelMetalHydride)
    } else if s == "lead-acid"@ || s == "pbac"@ {
        Some(BatteryTechnology::LeadAcid)
    } else if s == ""@ || s == "unknown"@ {
        Some(BatteryTechnology::Unknown)
    } else {
        None
    }
}

/// `t` is the technology that the lower-cased word `s` names.
pub open spec fn technology_is(t: BatteryTechnology, s: Seq<char>) -> bool {
    match technology_of_lower(s) {
        Some(k) => t == k,
        None => t matches BatteryTechnology::Other(o) && o@ == s,
    }
}

impl BatteryTechnology {
    /// The technology that an already trimmed, lower-cased word names.
    pub fn from_lower(s: &[char]) -> (r: Self)
        ensures
            technology_is(r, s@),
    {
        if eq_str(s, "li-ion") || eq_str(s, "lion") || eq_str(s, "lithium-ion") {
            BatteryTechnology::LithiumIon
        } else if eq_str(s, "li-poly") || eq_str(s, "lipo") || eq_str(s, "lithium-polymer") {
            BatteryTechnology::LithiumPolymer
        } else if eq_str(s, "nimh") || eq_str(s, "ni-mh") {
            BatteryTechnology::NickelMetalHydride
        } else if eq_str(s, "lead-acid") || eq_str(s, "pbac") {
            BatteryTechnology::LeadAcid
        } else if eq_str(s, "") || eq_str(s, "unknown") {
            BatteryTechnology::Unknown
        } else {
            BatteryTechnology::Other(string_of(s))
        }
    }

    /// The technology that a sysfs `technology` word names (trimmed and
    /// lower-cased first).
    pub fn from_text(s: &str) -> (r: Self)
        ensures
            technology_is(r, lowercase(trim(s@))),
            all_ascii(trim(s@)) ==> technology_is(r, ascii_lower(trim(s@))),
    {
        let t = trimmed(chars_of(s).as_slice());
        let l = lowercase_of(t.as_slice());
        BatteryTechnology::from_lower(l.as_slice())
    }
}

/// Information about a single battery
#[derive(Debug, Clone)]
pub struct BatteryInfo {
    /// Battery name/identifier (e.g., "BAT0")
    pub name: String,
    /// Current charge percentage (0-100)
    pub percentage: u8,
    /// Current charging state
    pub state: BatteryState,
    /// Time to empty when discharging (in seconds), if available
    pub time_to_empty: Option<u64>,
    /// Time to full when charging (in seconds), if available
    pub time_to_full: Option<u64>,
    /// Current energy in microWatt-hours
    pub energy_now: Option<u64>,
    /// Full charge capacity in microWatt-hours
    pub energy_full: Option<u64>,
    /// Design capacity in microWatt-hours
    pub energy_full_design: Option<u64>,
    /// Current voltage in microVolts
    pub voltage_now: Option<u64>,
    /// Current power draw/charge rate in microWatts
    pub power_now: Option<u64>,
    /// Battery health estimate
    pub health: BatteryHealth,
    /// Health percentage (current capacity vs design capacity)
    pub health_percentage: Option<u8>,
    /// Battery technology
    pub technology: BatteryTechnology,
    /// Manufacturer
    pub manufacturer: Option<String>,
    /// Model name
    pub model: Option<String>,
    /// Serial number
    pub serial: Option<String>,
    /// Cycle count if available
    pub cycle_count: Option<u32>,
    /// Temperature in millidegrees Celsius
    pub temperature: Option<i32>,
}

/// AC adapter information
#[derive(Debug, Clone)]
pub struct AcAdapterInfo {
    /// Adapter name (e.g., "AC", "ADP1")
    pub name: String,
    /// Whether AC is connected
    pub online: bool,
}

/// Complete power supply status
#[derive(Debug, Clone)]
pub struct PowerSupplyStatus {
    /// All detected batteries
    pub batteries: Vec<BatteryInfo>,
    /// All detected AC adapters
    pub ac_adapters: Vec<AcAdapterInfo>,
    /// Whether the system is on AC power
    pub on_ac_power: bool,
    /// Combined battery percentage: the average weighted by each battery's energy at full charge
    pub combined_percentage: Option<u8>,
    /// Overall charging state
    pub overall_state: BatteryState,
}

/// The contents of the sysfs files of one battery, `None` for a file that
/// could not be read.
#[derive(Debug, Clone)]
pub struct BatteryFiles {
    pub capacity: Option<String>,
    pub status: Option<String>,
    pub energy_now: Option<String>,
    pub energy_full: Option<String>,
    pub energy_full_design: Option<String>,
    pub charge_now: Option<String>,
    pub charge_full: Option<String>,
    pub charge_full_design: Option<String>,
    pub voltage_now: Option<String>,
    pub power_now: Option<String>,
    pub current_now: Option<String>,
    pub technology: Option<String>,
    pub manufacturer: Option<String>,
    pub model_name: Option<String>,
    pub serial_number: Option<String>,
    pub cycle_count: Option<String>,
    pub temp: Option<String>,
}

pub open spec fn ov(o: Option<String>) -> Option<Seq<char>> {
    match o {
        Some(s) => Some(s@),
        None => None,
    }
}

/// A charge in microampere-hours converted to energy at `voltage` microvolts.
pub open spec fn charge_to_energy(c: Option<nat>, voltage: nat) -> Option<nat> {
    match c {
        Some(c) => Some((c * voltage) / 1_000_000),
        None => None,
    }
}

/// The voltage used to convert charges: the measured one, else 3.7 V.
pub open spec fn conversion_voltage(f: BatteryFiles) -> nat {
    match sysfs_unsigned(ov(f.voltage_now)) {
        Some(v) => v,
        None => 3_700_000,
    }
}

/// Energy values now, at full charge and by design: the `energy_*` files
/// when `energy_now` or `energy_full` holds a value, else the `charge_*`
/// files converted at the conversion voltage.
pub open spec fn energy_values(f: BatteryFiles) -> (Option<nat>, Option<nat>, Option<nat>) {
    let en = sysfs_unsigned(ov(f.energy_now));
    let ef = sysfs_unsigned(ov(f.energy_full));
    let ed = sysfs_unsigned(ov(f.energy_full_design));
    if en is Some || ef is Some {
        (en, ef, ed)
    } else {
        let v = conversion_voltage(f);
        (
            charge_to_energy(sysfs_unsigned(ov(f.charge_now)), v),
            charge_to_energy(sysfs_unsigned(ov(f.charge_full)), v),
            charge_to_energy(sysfs_unsigned(ov(f.charge_full_design)), v),
        )
    }
}

/// Whether `x` times `k` fits in 64 bits, where `x` is known.
pub open spec fn fits(x: Option<nat>, k: nat) -> bool {
    match x {
        Some(v) => v * k <= u64::MAX,
        None => true,
    }
}

/// The products that reading the files computes stay within 64 bits (the
/// readings of real batteries are far below these limits).
pub open spec fn battery_files_in_range(f: BatteryFiles) -> bool {
    let en = sysfs_unsigned(ov(f.energy_now));
    let ef = sysfs_unsigned(ov(f.energy_full));
    let v = conversion_voltage(f);
    let e = energy_values(f);
    &&& !(en is Some || ef is Some) ==> fits(sysfs_unsigned(ov(f.charge_now)), v) && fits(
        sysfs_unsigned(ov(f.charge_full)),
        v,
    ) && fits(sysfs_unsigned(ov(f.charge_full_design)), v)
    &&& (sysfs_unsigned(ov(f.capacity)) is None && (e.1 matches Some(full) && full > 0)) ==> fits(
        e.0,
        100,
    )
    &&& (e.2 matches Some(d) && d > 0) ==> fits(e.1, 100)
    &&& estimates_fit(e.0, e.1, power_of(f), status_state(f))
}

/// The charge percentage: the capacity file capped at 100, else energy now
/// over energy at full charge, else 0.
pub open spec fn percentage_of(cap: Option<nat>, now: Option<nat>, full: Option<nat>) -> u8 {
    match cap {
        Some(c) => if c < 100 {
            c as u8
        } else {
            100
        },
        None => match (now, full) {
            (Some(n), Some(f)) => if f > 0 {
                if (n * 100) / f < 100 {
                    ((n * 100) / f) as u8
                } else {
                    100
                }
            } else {
                0
            },
            _ => 0,
        },
    }
}

/// Health from full-charge and design capacities: the percentage capped at
/// 100; 80 and above is good, 50 and above degraded, below critical.
pub open spec fn health_of(full: Option<nat>, design: Option<nat>) -> (BatteryHealth, Option<u8>) {
    match (full, design) {
        (Some(f), Some(d)) => if d > 0 {
            let p: nat = if (f * 100) / d < 100 {
                (f * 100) / d
            } else {
                100
            };
            (
                if p >= 80 {
                    BatteryHealth::Good
                } else if p >= 50 {
                    BatteryHealth::Degraded
                } else {
                    BatteryHealth::Critical
                },
                Some(p as u8),
            )
        } else {
            (BatteryHealth::Unknown, None)
        },
        _ => (BatteryHealth::Unknown, None),
    }
}

/// Whether the time estimates stay within 64 bits: with a positive power
/// draw, the energy now times 3600 while discharging, and the energy still
/// to charge times 3600 while charging.
pub open spec fn estimates_fit(
    now: Option<nat>,
    full: Option<nat>,
    power: Option<nat>,
    state: BatteryState,
) -> bool {
    match power {
        Some(p) if p > 0 => match state {
            BatteryState::Discharging => fits(now, 3600),
            BatteryState::Charging => match (now, full) {
                (Some(n), Some(f)) => f > n ==> (f - n) * 3600 <= u64::MAX,
                _ => true,
            },
            _ => true,
        },
        _ => true,
    }
}

/// Time to empty and time to full in seconds: only with a positive power
/// draw; to empty while discharging, to full while charging below full.
pub open spec fn time_estimates(
    now: Option<nat>,
    full: Option<nat>,
    power: Option<nat>,
    state: BatteryState,
) -> (Option<nat>, Option<nat>) {
    match power {
        Some(p) if p > 0 => match state {
            BatteryState::Discharging => match now {
                Some(n) => (Some((n * 3600) / p), None),
                None => (None, None),
            },
            BatteryState::Charging => match (now, full) {
                (Some(n), Some(f)) => if f > n {
                    (None, Some((((f - n) * 3600) / (p as int)) as nat))
                } else {
                    (None, None)
                },
                _ => (None, None),
            },
            _ => (None, None),
        },
        _ => (None, None),
    }
}

pub open spec fn opt_u64(o: Option<nat>) -> Option<u64> {
    match o {
        Some(v) => Some(v as u64),
        None => None,
    }
}

/// The state that the status file names.
pub open spec fn status_state(f: BatteryFiles) -> BatteryState {
    match sysfs_text(ov(f.status)) {
        Some(t) => state_of_lower(lowercase(trim(t))),
        None => BatteryState::Unknown,
    }
}

/// The power draw: `power_now`, else `current_now`.
pub open spec fn power_of(f: BatteryFiles) -> Option<nat> {
    match sysfs_unsigned(ov(f.power_now)) {
        Some(p) => Some(p),
        None => sysfs_unsigned(ov(f.current_now)),
    }
}

/// `info` is what the sysfs files `f` of battery `name` describe.
pub open spec fn battery_info_ok(info: BatteryInfo, name: Seq<char>, f: BatteryFiles) -> bool {
    let e = energy_values(f);
    let h = health_of(e.1, e.2);
    let state = status_state(f);
    let t = time_estimates(e.0, e.1, power_of(f), state);
    &&& info.name@ == name
    &&& info.percentage == percentage_of(sysfs_unsigned(ov(f.capacity)), e.0, e.1)
    &&& info.state == state
    &&& info.time_to_empty == opt_u64(t.0)
    &&& info.time_to_full == opt_u64(t.1)
    &&& info.energy_now == opt_u64(e.0)
    &&& info.energy_full == opt_u64(e.1)
    &&& info.energy_full_design == opt_u64(e.2)
    &&& info.voltage_now == opt_u64(sysfs_unsigned(ov(f.voltage_now)))
    &&& info.power_now == opt_u64(power_of(f))
    &&& info.health == h.0
    &&& info.health_percentage == h.1
    &&& (match sysfs_text(ov(f.technology)) {
        Some(t) => technology_is(info.technology, lowercase(trim(t))),
        None => info.technology == BatteryTechnology::Unknown,
    })
    &&& ov(info.manufacturer) == sysfs_text(ov(f.manufacturer))
    &&& ov(info.model) == sysfs_text(ov(f.model_name))
    &&& ov(info.serial) == sysfs_text(ov(f.serial_number))
    &&& info.cycle_count == (match sysfs_unsigned(ov(f.cycle_count)) {
        Some(c) => Some(c as u32),
        None => None,
    })
    &&& info.temperature == (match sysfs_signed(ov(f.temp)) {
        Some(t) => Some(t as i32),
        None => None,
    })
}

fn opt_str(o: Option<Vec<char>>) -> (r: Option<String>)
    ensures
        ov(r) == opt_chars(o),
{
    match o {
        Some(v) => Some(string_of(v.as_slice())),
        None => None,
    }
}

/// Read energy values, handling both energy_* and charge_* naming conventions
fn read_energy_values(f: &BatteryFiles) -> (r: (Option<u64>, Option<u64>, Option<u64>))
    requires
        battery_files_in_range(*f),
    ensures
        r == (opt_u64(energy_values(*f).0), opt_u64(energy_values(*f).1), opt_u64(
            energy_values(*f).2,
        )),
{
    let energy_now = read_sysfs_u64(f.energy_now.as_ref());
    let energy_full = read_sysfs_u64(f.energy_full.as_ref());
    let energy_full_design = read_sysfs_u64(f.energy_full_design.as_ref());
    if energy_now.is_some() || energy_full.is_some() {
        return (energy_now, energy_full, energy_full_design);
    }
    let voltage = match read_sysfs_u64(f.voltage_now.as_ref()) {
        Some(v) => v,
        None => 3_700_000,
    };
    let cn = read_sysfs_u64(f.charge_now.as_ref());
    let cf = read_sysfs_u64(f.charge_full.as_ref());
    let cd = read_sysfs_u64(f.charge_full_design.as_ref());
    let a = match cn {
        Some(c) => Some((c * voltage) / 1_000_000),
        None => None,
    };
    let b = match cf {
        Some(c) => Some((c * voltage) / 1_000_000),
        None => None,
    };
    let d = match cd {
        Some(c) => Some((c * voltage) / 1_000_000),
        None => None,
    };
    (a, b, d)
}

/// Calculate time to empty/full estimates
pub fn calculate_time_estimates(
    energy_now: Option<u64>,
    energy_full: Option<u64>,
    power_now: Option<u64>,
    state: BatteryState,
) -> (r: (Option<u64>, Option<u64>))
    requires
        estimates_fit(
            match energy_now {
                Some(v) => Some(v as nat),
                None => None,
            },
            match energy_full {
                Some(v) => Some(v as nat),
                None => None,
            },
            match power_now {
                Some(v) => Some(v as nat),
                None => None,
            },
            state,
        ),
    ensures
        r == ({
            let t = time_estimates(
                match energy_now {
                    Some(v) => Some(v as nat),
                    None => None,
                },
                match energy_full {
                    Some(v) => Some(v as nat),
                    None => None,
                },
                match power_now {
                    Some(v) => Some(v as nat),
                    None => None,
                },
                state,
            );
            (opt_u64(t.0), opt_u64(t.1))
        }),
{
    let power = match power_now {
        Some(p) if p > 0 => p,
        _ => return (None, None),
    };
    match state {
        BatteryState::Discharging => {
            if let Some(now) = energy_now {
                let seconds = (now * 3600) / power;
                return (Some(seconds), None);
            }
        },
        BatteryState::Charging => {
            if let (Some(now), Some(full)) = (energy_now, energy_full) {
                if full > now {
                    let remaining = full - now;
                    let seconds = (remaining * 3600) / power;
                    return (None, Some(seconds));
                }
            }
        },
        _ => {},
    }
    (None, None)
}

/// The battery information that the sysfs files of battery `name` describe.
#[verifier::rlimit(40)]
pub fn read_battery(name: &str, f: &BatteryFiles) -> (r: BatteryInfo)
    requires
        battery_files_in_range(*f),
    ensures
        battery_info_ok(r, name@, *f),
{
    let (energy_now, energy_full, energy_full_design) = read_energy_values(f);
    let percentage: u8 = if let Some(cap) = read_sysfs_u64(f.capacity.as_ref()) {
        if cap < 100 {
            cap as u8
        } else {
            100
        }
    } else if let (Some(now), Some(full)) = (energy_now, energy_full) {
        if full > 0 {
            let p = (now * 100) / full;
            if p < 100 {
                p as u8
            } else {
                100
            }
        } else {
            0
        }
    } else {
        0
    };
    let state = match read_sysfs_string(f.status.as_ref()) {
        Some(t) => {
            let tt = trimmed(t.as_slice());
            let l = lowercase_of(tt.as_slice());
            BatteryState::from_lower(l.as_slice())
        },
        None => BatteryState::Unknown,
    };
    let (health, health_percentage) = if let (Some(full), Some(design)) = (
        energy_full,
        energy_full_design,
    ) {
        if design > 0 {
            let q = (full * 100) / design;
            let pct: u8 = if q < 100 {
                q as u8
            } else {
                100
            };
            let health = if pct >= 80 {
                BatteryHealth::Good
            } else if pct >= 50 {
                BatteryHealth::Degraded
            } else {
                BatteryHealth::Critical
            };
            (health, Some(pct))
        } else {
            (BatteryHealth::Unknown, None)
        }
    } else {
        (BatteryHealth::Unknown, None)
    };
    let power_now = match read_sysfs_u64(f.power_now.as_ref()) {
        Some(p) => Some(p),
        None => read_sysfs_u64(f.current_now.as_ref()),
    };
    let voltage_now = read_sysfs_u64(f.voltage_now.as_ref());
    let (time_to_empty, time_to_full) = calculate_time_estimates(
        energy_now,
        energy_full,
        power_now,
        state,
    );
    let technology = match read_sysfs_string(f.technology.as_ref()) {
        Some(t) => {
            let tt = trimmed(t.as_slice());
            let l = lowercase_of(tt.as_slice());
            BatteryTechnology::from_lower(l.as_slice())
        },
        None => BatteryTechnology::Unknown,
    };
    let cycle_count = match read_sysfs_u64(f.cycle_count.as_ref()) {
        Some(c) => Some(c as u32),
        None => None,
    };
    let temperature = match read_sysfs_i64(f.temp.as_ref()) {
        Some(t) => Some(t as i32),
        None => None,
    };
    BatteryInfo {
        name: string_of(chars_of(name).as_slice()),
        percentage,
        state,
        time_to_empty,
        time_to_full,
        energy_now,
        energy_full,
        energy_full_design,
        voltage_now,
        power_now,
        health,
        health_percentage,
        technology,
        manufacturer: opt_str(read_sysfs_string(f.manufacturer.as_ref())),
        model: opt_str(read_sysfs_string(f.model_name.as_ref())),
        serial: opt_str(read_sysfs_string(f.serial_number.as_ref())),
        cycle_count,
        temperature,
    }
}

fn fits_exec(x: Option<u64>, k: u64) -> (r: bool)
    ensures
        r == fits(opt_nat(x), k as nat),
{
    match x {
        Some(v) => v.checked_mul(k).is_some(),
        None => true,
    }
}

/// The value of an optional number, as a natural number.
pub open spec fn opt_nat(x: Option<u64>) -> Option<nat> {
    match x {
        Some(v) => Some(v as nat),
        None => None,
    }
}

/// Whether the products that reading the files of a battery computes stay
/// within 64 bits, so that `read_battery` can read them.
pub fn battery_files_fit(f: &BatteryFiles) -> (r: bool)
    ensures
        r == battery_files_in_range(*f),
{
    let en = read_sysfs_u64(f.energy_now.as_ref());
    let ef = read_sysfs_u64(f.energy_full.as_ref());
    let ed = read_sysfs_u64(f.energy_full_design.as_ref());
    let (now, full, design) = if en.is_some() || ef.is_some() {
        (en, ef, ed)
    } else {
        let v = match read_sysfs_u64(f.voltage_now.as_ref()) {
            Some(v) => v,
            None => 3_700_000,
        };
        let cn = read_sysfs_u64(f.charge_now.as_ref());
        let cf = read_sysfs_u64(f.charge_full.as_ref());
        let cd = read_sysfs_u64(f.charge_full_design.as_ref());
        if !(fits_exec(cn, v) && fits_exec(cf, v) && fits_exec(cd, v)) {
            return false;
        }
        let a = match cn {
            Some(c) => Some((c * v) / 1_000_000),
            None => None,
        };
        let b = match cf {
            Some(c) => Some((c * v) / 1_000_000),
            None => None,
        };
        let d = match cd {
            Some(c) => Some((c * v) / 1_000_000),
            None => None,
        };
        (a, b, d)
    };
    let ghost e = energy_values(*f);
    assert(opt_nat(now) == e.0 && opt_nat(full) == e.1 && opt_nat(design) == e.2);
    let percentage_ok = match (read_sysfs_u64(f.capacity.as_ref()), full) {
        (None, Some(x)) => if x > 0 {
            fits_exec(now, 100)
        } else {
            true
        },
        _ => true,
    };
    let health_ok = match design {
        Some(d) => if d > 0 {
            fits_exec(full, 100)
        } else {
            true
        },
        None => true,
    };
    let power = match read_sysfs_u64(f.power_now.as_ref()) {
        Some(p) => Some(p),
        None => read_sysfs_u64(f.current_now.as_ref()),
    };
    let state = match read_sysfs_string(f.status.as_ref()) {
        Some(t) => {
            let tt = trimmed(t.as_slice());
            let l = lowercase_of(tt.as_slice());
            BatteryState::from_lower(l.as_slice())
        },
        None => BatteryState::Unknown,
    };
    let estimates_ok = match power {
        Some(p) => if p > 0 {
            match state {
                BatteryState::Discharging => fits_exec(now, 3600),
                BatteryState::Charging => match (now, full) {
                    (Some(n), Some(x)) => if x > n {
                        (x - n).checked_mul(3600).is_some()
                    } else {
                        true
                    },
                    _ => true,
                },
                _ => true,
            }
        } else {
            true
        },
        None => true,
    };
    percentage_ok && health_ok && estimates_ok
}

/// Read AC adapter information: online when the `online` file holds 1.
pub fn read_ac_adapter(name: &str, online: Option<&String>) -> (r: AcAdapterInfo)
    ensures
        r.name@ == name@,
        r.online == (sysfs_unsigned(match online {
            Some(c) => Some(c@),
            None => None,
        }) == Some(1nat)),
{
    let v = match read_sysfs_u64(online) {
        Some(v) => v,
        None => 0,
    };
    AcAdapterInfo { name: string_of(chars_of(name).as_slice()), online: v == 1 }
}

/// Some adapter is online.
pub open spec fn any_online(a: Seq<AcAdapterInfo>) -> bool {
    exists|i: int| 0 <= i < a.len() && a[i].online
}

/// The sum of the charge percentages of the batteries.
pub open spec fn percentage_sum(b: Seq<BatteryInfo>) -> nat
    decreases b.len(),
{
    if b.len() == 0 {
        0
    } else {
        percentage_sum(b.drop_last()) + b.last().percentage as nat
    }
}

/// Some battery is in state `st`.
pub open spec fn any_in_state(b: Seq<BatteryInfo>, st: BatteryState) -> bool {
    exists|i: int| 0 <= i < b.len() && b[i].state == st
}

/// The overall state of a set of batteries: unknown without batteries,
/// charging when any charges, full when all are full, discharging when any
/// discharges, else not charging.
pub open spec fn overall_state_of(b: Seq<BatteryInfo>) -> BatteryState {
    if b.len() == 0 {
        BatteryState::Unknown
    } else if any_in_state(b, BatteryState::Charging) {
        BatteryState::Charging
    } else if forall|i: int| 0 <= i < b.len() ==> b[i].state == BatteryState::Full {
        BatteryState::Full
    } else if any_in_state(b, BatteryState::Discharging) {
        BatteryState::Discharging
    } else {
        BatteryState::NotCharging
    }
}

/// How the overall state follows the batteries' states: a charging battery
/// makes the whole charging; otherwise a discharging battery makes it
/// discharging; it is full exactly when every battery is full; unknown
/// exactly when there is no battery; and not charging when batteries exist,
/// none charges or discharges, and not all are full.
pub proof fn law_overall_state(b: Seq<BatteryInfo>)
    ensures
        (overall_state_of(b) == BatteryState::Charging) <==> (exists|i: int|
            0 <= i < b.len() && #[trigger] b[i].state == BatteryState::Charging),
        (exists|i: int| 0 <= i < b.len() && #[trigger] b[i].state == BatteryState::Discharging)
            && !(exists|i: int| 0 <= i < b.len() && #[trigger] b[i].state == BatteryState::Charging)
            ==> overall_state_of(b) == BatteryState::Discharging,
        (overall_state_of(b) == BatteryState::Discharging) ==> (exists|i: int|
            0 <= i < b.len() && #[trigger] b[i].state == BatteryState::Discharging),
        (overall_state_of(b) == BatteryState::Full) <==> (b.len() > 0 && forall|i: int|
            0 <= i < b.len() ==> #[trigger] b[i].state == BatteryState::Full),
        (overall_state_of(b) == BatteryState::Unknown) <==> b.len() == 0,
        (overall_state_of(b) == BatteryState::NotCharging) <==> (b.len() > 0 && (forall|i: int|
            0 <= i < b.len() ==> #[trigger] b[i].state != BatteryState::Charging
                && b[i].state != BatteryState::Discharging) && exists|i: int|
            0 <= i < b.len() && #[trigger] b[i].state != BatteryState::Full),
{
    if b.len() > 0 && (exists|i: int|
        0 <= i < b.len() && #[trigger] b[i].state == BatteryState::Discharging) {
        let i = choose|i: int| 0 <= i < b.len() && #[trigger] b[i].state == BatteryState::Discharging;
        assert(b[i].state != BatteryState::Full);
    }
}

/// The weight of a battery in the combined percentage: its energy at full
/// charge, 0 when unknown.
pub open spec fn weight_of(b: BatteryInfo) -> nat {
    match b.energy_full {
        Some(e) => e as nat,
        None => 0,
    }
}

/// The sum of the weights of the batteries.
pub open spec fn weight_sum(b: Seq<BatteryInfo>) -> nat
    decreases b.len(),
{
    if b.len() == 0 {
        0
    } else {
        weight_sum(b.drop_last()) + weight_of(b.last())
    }
}

/// The sum of the batteries' percentages, each times its weight.
pub open spec fn weighted_percentage_sum(b: Seq<BatteryInfo>) -> nat
    decreases b.len(),
{
    if b.len() == 0 {
        0
    } else {
        weighted_percentage_sum(b.drop_last()) + b.last().percentage as nat * weight_of(b.last())
    }
}

/// The combined percentage: the weighted average of the batteries'
/// percentages, each weighted by its energy at full charge, truncated; when
/// no battery's full energy is known, every battery weighs the same.
pub open spec fn combined_percentage_of(b: Seq<BatteryInfo>) -> Option<u8> {
    if b.len() == 0 {
        None
    } else if weight_sum(b) > 0 {
        Some((weighted_percentage_sum(b) / weight_sum(b)) as u8)
    } else {
        Some((percentage_sum(b) / b.len()) as u8)
    }
}

proof fn lemma_sums_bounded(b: Seq<BatteryInfo>)
    ensures
        percentage_sum(b) <= b.len() * 255,
        weight_sum(b) <= b.len() * 0xffff_ffff_ffff_ffff,
        weighted_percentage_sum(b) <= b.len() * 4703919738795935661825,
    decreases b.len(),
{
    if b.len() > 0 {
        lemma_sums_bounded(b.drop_last());
        let p = b.last().percentage as nat;
        let w = weight_of(b.last());
        assert(p * w <= 4703919738795935661825) by (nonlinear_arith)
            requires
                p <= 255,
                w <= 0xffff_ffff_ffff_ffff,
        ;
    }
}

/// The power supply status of a set of batteries and adapters.
pub fn power_supply_status(batteries: Vec<BatteryInfo>, ac_adapters: Vec<AcAdapterInfo>) -> (r:
    PowerSupplyStatus)
    requires
        batteries@.len() <= u32::MAX,
    ensures
        r.batteries@ == batteries@,
        r.ac_adapters@ == ac_adapters@,
        r.on_ac_power == (any_online(ac_adapters@) || batteries@.len() == 0),
        r.combined_percentage == combined_percentage_of(batteries@),
        r.overall_state == overall_state_of(batteries@),
{
    let mut online = false;
    let mut i: usize = 0;
    while i < ac_adapters.len()
        invariant
            i <= ac_adapters@.len(),
            online == exists|k: int| 0 <= k < i && ac_adapters@[k].online,
        decreases ac_adapters@.len() - i,
    {
        if ac_adapters[i].online {
            online = true;
        }
        i = i + 1;
    }
    let on_ac_power = online || batteries.len() == 0;
    let mut total: u64 = 0;
    let mut weights: u128 = 0;
    let mut weighted: u128 = 0;
    let mut charging = false;
    let mut all_full = true;
    let mut discharging = false;
    let mut j: usize = 0;
    assert(batteries@.take(0) =~= Seq::<BatteryInfo>::empty());
    while j < batteries.len()
        invariant
            j <= batteries@.len(),
            batteries@.len() <= u32::MAX,
            total == percentage_sum(batteries@.take(j as int)),
            weights == weight_sum(batteries@.take(j as int)),
            weighted == weighted_percentage_sum(batteries@.take(j as int)),
            charging == exists|k: int| 0 <= k < j && batteries@[k].state == BatteryState::Charging,
            discharging == exists|k: int|
                0 <= k < j && batteries@[k].state == BatteryState::Discharging,
            all_full == forall|k: int| 0 <= k < j ==> batteries@[k].state == BatteryState::Full,
        decreases batteries@.len() - j,
    {
        let ghost next = batteries@.take(j + 1);
        assert(next.drop_last() =~= batteries@.take(j as int));
        proof {
            lemma_sums_bounded(next);
        }
        let w: u128 = match batteries[j].energy_full {
            Some(e) => e as u128,
            None => 0,
        };
        let p = batteries[j].percentage;
        assert((p as u128) * w <= 4703919738795935661825) by (nonlinear_arith)
            requires
                p <= 255,
                w <= 0xffff_ffff_ffff_ffff,
        ;
        assert(next.last() == batteries@[j as int]);
        total = total + p as u64;
        weights = weights + w;
        weighted = weighted + (p as u128) * w;
        let st = batteries[j].state;
        if st == BatteryState::Charging {
            charging = true;
        }
        if st == BatteryState::Discharging {
            discharging = true;
        }
        if st != BatteryState::Full {
            all_full = false;
        }
        j = j + 1;
    }
    assert(batteries@.take(j as int) =~= batteries@);
    let combined_percentage = if batteries.len() == 0 {
        None
    } else if weights > 0 {
        Some((weighted / weights) as u8)
    } else {
        Some((total / batteries.len() as u64) as u8)
    };
    let overall_state = if batteries.len() == 0 {
        BatteryState::Unknown
    } else if charging {
        BatteryState::Charging
    } else if all_full {
        BatteryState::Full
    } else if discharging {
        BatteryState::Discharging
    } else {
        BatteryState::NotCharging
    };
    PowerSupplyStatus {
        batteries,
        ac_adapters,
        on_ac_power,
        combined_percentage,
        overall_state,
    }
}

/// Whether a status shows the batteries below `threshold` percent while
/// discharging.
pub open spec fn below_while_discharging(status: Option<&PowerSupplyStatus>, threshold: u8) -> bool {
    match status {
        Some(st) => match st.combined_percentage {
            Some(p) => p < threshold && st.overall_state == BatteryState::Discharging,
            None => false,
        },
        None => false,
    }
}

/// A number of seconds as `{h}h {m}m`, or `{m}m` under an hour.
pub open spec fn duration_text(secs: nat) -> Seq<char> {
    let hours = secs / 3600;
    let minutes = (secs % 3600) / 60;
    if hours > 0 {
        decimal(hours) + "h "@ + decimal(minutes) + "m"@
    } else {
        decimal(minutes) + "m"@
    }
}

/// Format duration as human-readable string
pub fn format_duration(duration: core::time::Duration) -> (r: String)
    ensures
        r@ == duration_text(duration_secs(duration) as nat),
{
    let total_seconds = duration.as_secs();
    let hours = total_seconds / 3600;
    let minutes = (total_seconds % 3600) / 60;
    let mut out: Vec<char> = Vec::new();
    if hours > 0 {
        let h = decimal_of(hours);
        append(&mut out, h.as_slice());
        append_str(&mut out, "h ");
    }
    let m = decimal_of(minutes);
    append(&mut out, m.as_slice());
    append_str(&mut out, "m");
    proof {
        if hours > 0 {
            assert(out@ =~= decimal(hours as nat) + "h "@ + decimal(minutes as nat) + "m"@);
        } else {
            assert(out@ =~= decimal(minutes as nat) + "m"@);
        }
    }
    string_of(out.as_slice())
}

/// Format time remaining for display
pub fn format_time_remaining(seconds: u64) -> (r: String)
    ensures
        r@ == duration_text(seconds as nat),
{
    format_duration(core::time::Duration::from_secs(seconds))
}

/// Historical battery data point
#[derive(Debug, Clone, Copy, PartialEq, Eq, Structural)]
pub struct BatteryHistoryPoint {
    /// Unix timestamp
    pub timestamp: u64,
    /// Charge percentage
    pub percentage: u8,
    /// Charging state
    pub state: BatteryState,
    /// Power draw in microwatts
    pub power_microwatts: Option<u64>,
}

/// Maximum history entries to keep (about 16 hours at one reading a minute).
pub const MAX_HISTORY: usize = 1000;

/// Seconds that must pass between two recorded readings.
pub const MIN_RECORD_INTERVAL: u64 = 30;

/// Consecutive readings are at least the minimum interval apart.
pub open spec fn spaced(h: Seq<BatteryHistoryPoint>) -> bool {
    forall|i: int|
        0 <= i < h.len() - 1 ==> #[trigger] h[i].timestamp + MIN_RECORD_INTERVAL <= h[i
            + 1].timestamp
}

/// The last `max` readings of `h`.
pub open spec fn keep_last(h: Seq<BatteryHistoryPoint>, max: nat) -> Seq<BatteryHistoryPoint> {
    if h.len() > max {
        h.skip(h.len() - max)
    } else {
        h
    }
}

/// The history after a reading at `now`: unchanged when the last reading is
/// less than the minimum interval old, else with the reading appended and
/// only the newest readings kept.
pub open spec fn recorded(h: Seq<BatteryHistoryPoint>, p: BatteryHistoryPoint) -> Seq<
    BatteryHistoryPoint,
> {
    if h.len() > 0 && p.timestamp - h.last().timestamp < MIN_RECORD_INTERVAL {
        h
    } else {
        keep_last(h.push(p), MAX_HISTORY as nat)
    }
}

/// The readings of `h` taken at or after `cutoff`, in order.
pub open spec fn readings_since(h: Seq<BatteryHistoryPoint>, cutoff: nat) -> Seq<
    BatteryHistoryPoint,
>
    decreases h.len(),
{
    if h.len() == 0 {
        h
    } else if h.last().timestamp >= cutoff {
        readings_since(h.drop_last(), cutoff).push(h.last())
    } else {
        readings_since(h.drop_last(), cutoff)
    }
}

/// The readings of `h` taken while discharging, in order.
pub open spec fn discharging_readings(h: Seq<BatteryHistoryPoint>) -> Seq<BatteryHistoryPoint>
    decreases h.len(),
{
    if h.len() == 0 {
        h
    } else if h.last().state == BatteryState::Discharging {
        discharging_readings(h.drop_last()).push(h.last())
    } else {
        discharging_readings(h.drop_last())
    }
}

/// The cutoff of a look-back of `minutes` from `now`.
pub open spec fn cutoff_of(now: u64, minutes: u32) -> nat {
    if now >= minutes as nat * 60 {
        (now - minutes as nat * 60) as nat
    } else {
        0
    }
}

/// The seconds of battery left, extrapolated from the discharging readings
/// of the last ten minutes: the time per percent lost between the first and
/// last of them, times the last percentage.
pub open spec fn estimate(h: Seq<BatteryHistoryPoint>, now: u64) -> Option<nat> {
    let recent = readings_since(h, cutoff_of(now, 10));
    let d = discharging_readings(recent);
    if recent.len() < 2 || d.len() < 2 {
        None
    } else {
        let first = d[0];
        let last = d.last();
        let time_delta: nat = if last.timestamp >= first.timestamp {
            (last.timestamp - first.timestamp) as nat
        } else {
            0
        };
        let pct_delta: nat = if first.percentage >= last.percentage {
            (first.percentage - last.percentage) as nat
        } else {
            0
        };
        if pct_delta == 0 || time_delta == 0 {
            None
        } else {
            Some(last.percentage as nat * (time_delta / pct_delta))
        }
    }
}

/// Battery backend with history tracking
pub struct BatteryBackend {
    /// History of battery readings
    history: Vec<BatteryHistoryPoint>,
    /// Maximum history entries to keep
    max_history: usize,
}

impl BatteryBackend {
    #[verifier::type_invariant]
    spec fn inv(&self) -> bool {
        &&& self.max_history == MAX_HISTORY
        &&& self.history@.len() <= self.max_history
        &&& spaced(self.history@)
    }

    /// The readings recorded so far, oldest first.
    pub closed spec fn history(&self) -> Seq<BatteryHistoryPoint> {
        self.history@
    }

    /// Create a new battery backend
    pub fn new() -> (r: Self)
        ensures
            r.history() == Seq::<BatteryHistoryPoint>::empty(),
            spaced(r.history()),
    {
        Self { history: Vec::new(), max_history: MAX_HISTORY }
    }

    /// Whether the battery is low: below `threshold` percent while
    /// discharging, by the status read (`None` when it could not be read).
    pub fn is_low(&self, status: Option<&PowerSupplyStatus>, threshold: u8) -> (r: bool)
        ensures
            r == below_while_discharging(status, threshold),
    {
        match status {
            Some(st) => match st.combined_percentage {
                Some(pct) => pct < threshold && st.overall_state == BatteryState::Discharging,
                None => false,
            },
            None => false,
        }
    }

    /// Whether the battery is critical: below the critical `threshold`
    /// percent while discharging, by the status read.
    pub fn is_critical(&self, status: Option<&PowerSupplyStatus>, threshold: u8) -> (r: bool)
        ensures
            r == below_while_discharging(status, threshold),
    {
        self.is_low(status, threshold)
    }

    /// Record a reading taken at `now`.
    pub fn record_history(&mut self, point: BatteryHistoryPoint)
        requires
            old(self).history().len() > 0 ==> old(self).history().last().timestamp
                <= point.timestamp,
        ensures
            final(self).history() == recorded(old(self).history(), point),
            final(self).history().len() <= MAX_HISTORY,
            spaced(final(self).history()),
    {
        proof {
            use_type_invariant(&*self);
        }
        if self.history.len() > 0 {
            let last = self.history[self.history.len() - 1];
            if point.timestamp - last.timestamp < MIN_RECORD_INTERVAL {
                return;
            }
        }
        let mut h: Vec<BatteryHistoryPoint> = Vec::new();
        std::mem::swap(&mut h, &mut self.history);
        let ghost old_h = h@;
        h.push(point);
        assert(spaced(h@)) by {
            assert forall|i: int| 0 <= i < h@.len() - 1 implies #[trigger] h@[i].timestamp
                + MIN_RECORD_INTERVAL <= h@[i + 1].timestamp by {
                if i < old_h.len() - 1 {
                    assert(old_h[i].timestamp + MIN_RECORD_INTERVAL <= old_h[i + 1].timestamp);
                }
            }
        }
        let kept = if h.len() > MAX_HISTORY {
            let start = h.len() - MAX_HISTORY;
            let mut k: Vec<BatteryHistoryPoint> = Vec::new();
            let mut i: usize = start;
            while i < h.len()
                invariant
                    start <= i <= h@.len(),
                    k@ == h@.subrange(start as int, i as int),
                decreases h@.len() - i,
            {
                k.push(h[i]);
                i = i + 1;
                assert(k@ =~= h@.subrange(start as int, i as int));
            }
            assert(k@ =~= h@.skip(start as int));
            k
        } else {
            h
        };
        proof {
            assert(kept@ == keep_last(old_h.push(point), MAX_HISTORY as nat));
            assert forall|i: int| 0 <= i < kept@.len() - 1 implies #[trigger] kept@[i].timestamp
                + MIN_RECORD_INTERVAL <= kept@[i + 1].timestamp by {
                let off = old_h.push(point).len() - kept@.len();
                assert(kept@[i] == old_h.push(point)[i + off]);
                assert(kept@[i + 1] == old_h.push(point)[i + 1 + off]);
            }
        }
        self.history = kept;
    }

    /// The readings of the last `minutes` minutes before `now`.
    pub fn get_history(&self, now: u64, minutes: u32) -> (r: Vec<BatteryHistoryPoint>)
        ensures
            r@ == readings_since(self.history(), cutoff_of(now, minutes)),
    {
        let span = (minutes as u64) * 60;
        let cutoff = if now >= span {
            now - span
        } else {
            0
        };
        let mut r: Vec<BatteryHistoryPoint> = Vec::new();
        let mut i: usize = 0;
        assert(self.history@.take(0) =~= Seq::<BatteryHistoryPoint>::empty());
        while i < self.history.len()
            invariant
                i <= self.history@.len(),
                cutoff == cutoff_of(now, minutes),
                r@ == readings_since(self.history@.take(i as int), cutoff as nat),
            decreases self.history@.len() - i,
        {
            assert(self.history@.take(i + 1).drop_last() =~= self.history@.take(i as int));
            let p = self.history[i];
            if p.timestamp >= cutoff {
                r.push(p);
            }
            i = i + 1;
        }
        assert(self.history@.take(i as int) =~= self.history@);
        r
    }

    /// Get estimated battery life based on recent usage
    pub fn estimate_battery_life(&self, now: u64) -> (r: Option<core::time::Duration>)
        requires
            estimate(self.history(), now) matches Some(v) ==> v <= u64::MAX,
        ensures
            match estimate(self.history(), now) {
                Some(v) => r matches Some(d) && duration_secs(d) == v && duration_subsec_nanos(d)
                    == 0,
                None => r is None,
            },
    {
        let history = self.get_history(now, 10);
        if history.len() < 2 {
            return None;
        }
        let mut d: Vec<BatteryHistoryPoint> = Vec::new();
        let mut i: usize = 0;
        assert(history@.take(0) =~= Seq::<BatteryHistoryPoint>::empty());
        while i < history.len()
            invariant
                i <= history@.len(),
                d@ == discharging_readings(history@.take(i as int)),
            decreases history@.len() - i,
        {
            assert(history@.take(i + 1).drop_last() =~= history@.take(i as int));
            let p = history[i];
            if p.state == BatteryState::Discharging {
                d.push(p);
            }
            i = i + 1;
        }
        assert(history@.take(i as int) =~= history@);
        if d.len() < 2 {
            return None;
        }
        let first = d[0];
        let last = d[d.len() - 1];
        let time_delta = if last.timestamp >= first.timestamp {
            last.timestamp - first.timestamp
        } else {
            0
        };
        let pct_delta = if first.percentage >= last.percentage {
            first.percentage - last.percentage
        } else {
            0
        };
        if pct_delta == 0 || time_delta == 0 {
            return None;
        }
        let seconds_per_percent = time_delta / (pct_delta as u64);
        let remaining_seconds = (last.percentage as u64) * seconds_per_percent;
        Some(core::time::Duration::from_secs(remaining_seconds))
    }

    /// The power supply status from the readings of the batteries and
    /// adapters taken at `now`, recording the combined percentage.
    pub fn get_status(
        &mut self,
        now: u64,
        batteries: Vec<BatteryInfo>,
        ac_adapters: Vec<AcAdapterInfo>,
    ) -> (r: PowerSupplyStatus)
        requires
            batteries@.len() <= u32::MAX,
            old(self).history().len() > 0 ==> old(self).history().last().timestamp <= now,
        ensures
            r.batteries@ == batteries@,
            r.ac_adapters@ == ac_adapters@,
            r.on_ac_power == (any_online(ac_adapters@) || batteries@.len() == 0),
            r.combined_percentage == combined_percentage_of(batteries@),
            r.overall_state == overall_state_of(batteries@),
            match r.combined_percentage {
                Some(pct) => final(self).history() == recorded(
                    old(self).history(),
                    BatteryHistoryPoint {
                        timestamp: now,
                        percentage: pct,
                        state: r.overall_state,
                        power_microwatts: batteries@[0].power_now,
                    },
                ),
                None => final(self).history() == old(self).history(),
            },
    {
        let status = power_supply_status(batteries, ac_adapters);
        if let Some(pct) = status.combined_percentage {
            let power = status.batteries[0].power_now;
            self.record_history(
                BatteryHistoryPoint {
                    timestamp: now,
                    percentage: pct,
                    state: status.overall_state,
                    power_microwatts: power,
                },
            );
        }
        status
    }
}

/// The kinds of power supply that the status reads.
#[derive(Debug, Clone, Copy, PartialEq, Eq, Structural)]
pub enum PowerSupplyKind {
    Battery,
    Adapter,
    Other,
}

/// The kind of a power supply by its `type` file: `battery`, or `mains`
/// and `usb` for an adapter, whatever the letter case.
pub open spec fn supply_kind_of(type_file: Option<Seq<char>>) -> PowerSupplyKind {
    let t = lowercase(
        trim(
            match sysfs_text(type_file) {
                Some(v) => v,
                None => Seq::<char>::empty(),
            },
        ),
    );
    if t == "battery"@ {
        PowerSupplyKind::Battery
    } else if t == "mains"@ || t == "usb"@ {
        PowerSupplyKind::Adapter
    } else {
        PowerSupplyKind::Other
    }
}

impl BatteryBackend {
    /// The kind of a power supply, from the content of its `type` file.
    pub fn supply_kind(type_file: Option<&String>) -> (r: PowerSupplyKind)
        ensures
            r == supply_kind_of(
                match type_file {
                    Some(c) => Some(c@),
                    None => None,
                },
            ),
    {
        let text = match read_sysfs_string(type_file) {
            Some(t) => t,
            None => Vec::new(),
        };
        let l = lowercase_of(trimmed(text.as_slice()).as_slice());
        let l = l.as_slice();
        if eq_str(l, "battery") {
            PowerSupplyKind::Battery
        } else if eq_str(l, "mains") || eq_str(l, "usb") {
            PowerSupplyKind::Adapter
        } else {
            PowerSupplyKind::Other
        }
    }
}

} // verus!
