//! Bar applets: battery, audio, network, Bluetooth, date/time and resource
//! indicators, read from sysfs files and the output of `wpctl`, `pactl`,
//! `nmcli` and `bluetoothctl`.
use vstd::prelude::*;
use crate::text::{
    append, append_str, chars_of, contains, contains_str, decimal, decimal_of, ends_with, eq_str,
    lemma_split_nonempty, lines, lines_of, parse_uint, parse_unsigned, second_piece,
    second_piece_exec, split, split_on, split_ws, starts_with, starts_with_str, string_from,
    string_of, strip_prefix_str, trim, trim_char_end, trim_char_exec, trimmed, views, words,
    trim_char,
};

verus! {

#[derive(Debug, Clone, Copy, PartialEq, Eq, Structural)]
pub enum BatteryState {
    Charging,
    Discharging,
    Full,
    NotCharging,
    Unknown,
}

/// Battery status
#[derive(Debug, Clone, Copy, PartialEq, Eq, Structural)]
pub struct BatteryStatus {
    /// Charge percentage (0-100)
    pub percentage: u8,
    /// Current state
    pub state: BatteryState,
    /// Time to empty/full in seconds (if known)
    pub time_remaining: Option<u64>,
    /// Power draw in microwatts (if known)
    pub power_microwatts: Option<u64>,
    /// Battery health percentage (if known)
    pub health: Option<u8>,
}

/// Audio/volume status
#[derive(Debug, Clone)]
pub struct AudioStatus {
    /// Volume percentage (0-100)
    pub volume: u8,
    /// Whether muted
    pub muted: bool,
    /// Current output device name
    pub output_device: String,
    /// Whether microphone is muted
    pub mic_muted: bool,
}

/// Network connectivity indicator
#[derive(Debug, Clone)]
pub struct NetworkIndicator {
    /// Connection type
    pub connection_type: NetworkType,
    /// Signal strength (0-100) for wireless
    pub signal_strength: Option<u8>,
    /// Network name (SSID for WiFi)
    pub network_name: Option<String>,
    /// Whether VPN is active
    pub vpn_active: bool,
}

#[derive(Debug, Clone, Copy, PartialEq, Eq, Structural)]
pub enum NetworkType {
    NoConnection,
    Ethernet,
    Wifi,
    Cellular,
    VpnOnly,
}

/// Bluetooth status
#[derive(Debug, Clone, Copy, PartialEq, Eq, Structural)]
pub struct BluetoothStatus {
    /// Whether Bluetooth is available
    pub available: bool,
    /// Whether Bluetooth is powered on
    pub powered: bool,
    /// Number of connected devices
    pub connected_devices: u8,
}

/// Date and time information
#[derive(Debug, Clone)]
pub struct DateTimeInfo {
    /// Current timestamp (Unix epoch)
    pub timestamp: i64,
    /// Timezone name
    pub timezone: String,
    /// Formatted time string
    pub time_formatted: String,
    /// Formatted date string
    pub date_formatted: String,
}

/// System memory usage
#[derive(Debug, Clone, Copy, PartialEq, Eq, Structural)]
pub struct ResourceUsage {
    /// Used memory in bytes
    pub memory_used: u64,
    /// Total memory in bytes
    pub memory_total: u64,
}

/// Combined applet status for all common indicators
#[derive(Debug, Clone)]
pub struct AppletStatus {
    pub battery: Option<BatteryStatus>,
    pub audio: AudioStatus,
    pub network: NetworkIndicator,
    pub bluetooth: BluetoothStatus,
    pub datetime: DateTimeInfo,
    pub resources: ResourceUsage,
}

/// Applets backend
pub struct AppletsBackend;

/// The state that a trimmed battery `status` file names.
pub open spec fn battery_state_of(s: Seq<char>) -> BatteryState {
    if s == "Charging"@ {
        BatteryState::Charging
    } else if s == "Discharging"@ {
        BatteryState::Discharging
    } else if s == "Full"@ {
        BatteryState::Full
    } else if s == "Not charging"@ {
        BatteryState::NotCharging
    } else {
        BatteryState::Unknown
    }
}

/// The trimmed content of a file that could be read.
pub open spec fn trimmed_file(f: Option<Seq<char>>) -> Option<Seq<char>> {
    match f {
        Some(c) => Some(trim(c)),
        None => None,
    }
}

/// The value of a file that holds a decimal number at most `max`.
pub open spec fn file_number(f: Option<Seq<char>>, max: nat) -> Option<nat> {
    match f {
        Some(c) => parse_unsigned(trim(c), 10, max),
        None => None,
    }
}

/// The health of a battery: its full charge as a percentage of its design
/// charge, truncated to a byte, when both are known and the design charge
/// is not zero.
pub open spec fn health_of(full: Option<nat>, design: Option<nat>) -> Option<u8> {
    match (full, design) {
        (Some(f), Some(d)) => if d > 0 {
            Some(((f * 100) / d) as u8)
        } else {
            None
        },
        _ => None,
    }
}

/// The view of an optional string.
pub open spec fn opt_view(o: Option<&str>) -> Option<Seq<char>> {
    match o {
        Some(s) => Some(s@),
        None => None,
    }
}

/// The first word of `w` that ends with `%`, if any.
pub open spec fn first_percent(w: Seq<Seq<char>>) -> Option<Seq<char>>
    decreases w.len(),
{
    if w.len() == 0 {
        None
    } else if w[0].len() > 0 && w[0].last() == '%' {
        Some(w[0])
    } else {
        first_percent(w.drop_first())
    }
}

/// The value of the line `node.description = "..."` of `wpctl inspect`.
pub open spec fn sink_description(ls: Seq<Seq<char>>) -> Option<Seq<char>>
    decreases ls.len(),
{
    if ls.len() == 0 {
        None
    } else if contains(ls[0], "node.description"@) {
        let p = split(ls[0], '=');
        if p.len() > 1 {
            Some(trim_char(trim(p[1]), '"'))
        } else {
            None
        }
    } else {
        sink_description(ls.drop_first())
    }
}

/// The connection type, name and whether the WiFi signal is read, after a
/// line of `nmcli -t -f TYPE,STATE,CONNECTION device`.
pub open spec fn indicator_line(
    st: (NetworkType, Option<Seq<char>>, bool),
    line: Seq<char>,
) -> (NetworkType, Option<Seq<char>>, bool) {
    let p = split(line, ':');
    if p.len() >= 3 && p[1] == "connected"@ {
        let t = p[0];
        if t == "ethernet"@ {
            (NetworkType::Ethernet, Some(p[2]), st.2)
        } else if t == "wifi"@ {
            (NetworkType::Wifi, Some(p[2]), true)
        } else if (t == "gsm"@ || t == "cdma"@) && st.0 == NetworkType::NoConnection {
            (NetworkType::Cellular, Some(p[2]), st.2)
        } else {
            st
        }
    } else {
        st
    }
}

/// The state after the lines `ls`.
pub open spec fn indicator_scan(ls: Seq<Seq<char>>) -> (NetworkType, Option<Seq<char>>, bool)
    decreases ls.len(),
{
    if ls.len() == 0 {
        (NetworkType::NoConnection, None, false)
    } else {
        indicator_line(indicator_scan(ls.drop_last()), ls.last())
    }
}

/// The signal of the network in use: the second field of the first line of
/// `nmcli -t -f IN-USE,SIGNAL device wifi list` that begins with `*:`.
pub open spec fn wifi_signal_of(ls: Seq<Seq<char>>) -> Option<u8>
    decreases ls.len(),
{
    if ls.len() == 0 {
        None
    } else if starts_with(ls[0], "*:"@) {
        match parse_unsigned(split(ls[0], ':')[1], 10, u8::MAX as nat) {
            Some(v) => Some(v as u8),
            None => None,
        }
    } else {
        wifi_signal_of(ls.drop_first())
    }
}

/// Some line of the active connections is an activated VPN.
pub open spec fn vpn_activated(ls: Seq<Seq<char>>) -> bool {
    exists|k: int|
        0 <= k < ls.len() && starts_with(#[trigger] ls[k], "vpn:"@) && contains(ls[k], "activated"@)
}

/// Some line of `bluetoothctl show` says the adapter is powered.
pub open spec fn bt_powered(ls: Seq<Seq<char>>) -> bool {
    exists|k: int| 0 <= k < ls.len() && contains(#[trigger] ls[k], "Powered:"@) && contains(ls[k], "yes"@)
}

/// The kilobytes that a `/proc/meminfo` value gives, 0 when its first word
/// is not a number.
pub open spec fn kilobytes(v: Seq<char>) -> nat {
    let w = words(v);
    if w.len() > 0 {
        match parse_unsigned(w[0], 10, u64::MAX as nat) {
            Some(n) => n,
            None => 0,
        }
    } else {
        0
    }
}

/// The total and available memory in kilobytes after the lines `ls` of
/// `/proc/meminfo`, the last line of each kind counting.
pub open spec fn meminfo_of(ls: Seq<Seq<char>>) -> (nat, nat)
    decreases ls.len(),
{
    if ls.len() == 0 {
        (0, 0)
    } else {
        let prev = meminfo_of(ls.drop_last());
        let l = ls.last();
        if starts_with(l, "MemTotal:"@) {
            (kilobytes(l.skip(9)), prev.1)
        } else if starts_with(l, "MemAvailable:"@) {
            (prev.0, kilobytes(l.skip(13)))
        } else {
            prev
        }
    }
}

/// Every kilobyte count of the `/proc/meminfo` lines fits in bytes.
pub open spec fn meminfo_fits(ls: Seq<Seq<char>>) -> bool {
    forall|k: int|
        0 <= k < ls.len() ==> {
            &&& starts_with(#[trigger] ls[k], "MemTotal:"@) ==> kilobytes(ls[k].skip(9)) * 1024
                <= u64::MAX
            &&& starts_with(ls[k], "MemAvailable:"@) ==> kilobytes(ls[k].skip(13)) * 1024
                <= u64::MAX
        }
}

/// The numbers of the first line of `/proc/stat` after its first word.
pub open spec fn cpu_numbers(w: Seq<Seq<char>>) -> Seq<nat>
    decreases w.len(),
{
    if w.len() <= 1 {
        Seq::<nat>::empty()
    } else {
        let prev = cpu_numbers(w.drop_last());
        match parse_unsigned(w.last(), 10, u64::MAX as nat) {
            Some(v) => prev.push(v),
            None => prev,
        }
    }
}

/// The sum of `s`.
pub open spec fn sum_of(s: Seq<nat>) -> nat
    decreases s.len(),
{
    if s.len() == 0 {
        0
    } else {
        sum_of(s.drop_last()) + s.last()
    }
}

fn file_trimmed(f: Option<&str>) -> (r: Option<Vec<char>>)
    ensures
        match trimmed_file(opt_view(f)) {
            Some(t) => r matches Some(x) && x@ == t,
            None => r is None,
        },
{
    match f {
        Some(c) => Some(trimmed(chars_of(c).as_slice())),
        None => None,
    }
}

fn file_u64(f: Option<&str>) -> (r: Option<u64>)
    ensures
        match file_number(opt_view(f), u64::MAX as nat) {
            Some(v) => r == Some(v as u64),
            None => r is None,
        },
{
    match file_trimmed(f) {
        Some(t) => parse_uint(t.as_slice(), 10, 0xffff_ffff_ffff_ffff),
        None => None,
    }
}

/// What the time left on a battery is worked out from, by its
/// `energy_now`, `power_now`, `status` and `energy_full` files: the energy
/// still to use while discharging, or still to fill while charging, and the
/// power drawn; `None` when a file it needs is missing, the power is zero or
/// the battery is neither charging nor discharging.
pub open spec fn battery_time_basis_of(
    energy_now: Option<Seq<char>>,
    power_now: Option<Seq<char>>,
    status: Option<Seq<char>>,
    energy_full: Option<Seq<char>>,
) -> Option<(nat, nat)> {
    match (file_number(energy_now, u64::MAX as nat), file_number(power_now, u64::MAX as nat)) {
        (Some(e), Some(p)) => if p == 0 {
            None
        } else {
            match trimmed_file(status) {
                Some(s) => if s == "Discharging"@ {
                    Some((e, p))
                } else if s == "Charging"@ {
                    match file_number(energy_full, u64::MAX as nat) {
                        Some(f) => Some(((f - e) as nat, p)),
                        None => None,
                    }
                } else {
                    None
                },
                None => None,
            }
        },
        _ => None,
    }
}

impl AppletsBackend {
    /// The energy (in microwatt-hours) and power (in microwatts) that the
    /// time left on a battery is the quotient of, from its files; a charging
    /// battery holds no more energy than its full capacity.
    pub fn battery_time_basis(
        energy_now: Option<&str>,
        power_now: Option<&str>,
        status: Option<&str>,
        energy_full: Option<&str>,
    ) -> (r: Option<(u64, u64)>)
        requires
            trimmed_file(opt_view(status)) == Some("Charging"@) ==> match (
                file_number(opt_view(energy_full), u64::MAX as nat),
                file_number(opt_view(energy_now), u64::MAX as nat),
            ) {
                (Some(f), Some(e)) => e <= f,
                _ => true,
            },
        ensures
            match battery_time_basis_of(
                opt_view(energy_now),
                opt_view(power_now),
                opt_view(status),
                opt_view(energy_full),
            ) {
                Some((e, p)) => r == Some((e as u64, p as u64)),
                None => r is None,
            },
    {
        let e = match file_u64(energy_now) {
            Some(v) => v,
            None => {
                return None;
            },
        };
        let p = match file_u64(power_now) {
            Some(v) => v,
            None => {
                return None;
            },
        };
        if p == 0 {
            return None;
        }
        let st = match file_trimmed(status) {
            Some(t) => t,
            None => {
                return None;
            },
        };
        if eq_str(st.as_slice(), "Discharging") {
            Some((e, p))
        } else if eq_str(st.as_slice(), "Charging") {
            match file_u64(energy_full) {
                Some(f) => Some((f - e, p)),
                None => None,
            }
        } else {
            None
        }
    }

    /// Whether a power supply's trimmed `type` file says it is a battery.
    pub fn is_battery(type_file: &str) -> (r: bool)
        ensures
            r == (trim(type_file@) == "Battery"@),
    {
        eq_str(trimmed(chars_of(type_file).as_slice()).as_slice(), "Battery")
    }

    /// The battery status from the files of the first battery: `capacity`,
    /// `status`, `power_now`, `charge_full` and `charge_full_design`, and
    /// the time remaining computed for it.
    pub fn battery_status(
        capacity: Option<&str>,
        status: Option<&str>,
        power_now: Option<&str>,
        charge_full: Option<&str>,
        charge_full_design: Option<&str>,
        time_remaining: Option<u64>,
    ) -> (r: BatteryStatus)
        requires
            match (
                file_number(opt_view(charge_full), u64::MAX as nat),
                file_number(opt_view(charge_full_design), u64::MAX as nat),
            ) {
                (Some(f), Some(d)) => d > 0 ==> f * 100 <= u64::MAX,
                _ => true,
            },
        ensures
            r.percentage == (match file_number(opt_view(capacity), u8::MAX as nat) {
                Some(v) => v as u8,
                None => 0,
            }),
            r.state == (match trimmed_file(opt_view(status)) {
                Some(s) => battery_state_of(s),
                None => battery_state_of(Seq::<char>::empty()),
            }),
            r.time_remaining == time_remaining,
            r.power_microwatts == (match file_number(opt_view(power_now), u64::MAX as nat) {
                Some(v) => Some(v as u64),
                None => None,
            }),
            r.health == health_of(
                file_number(opt_view(charge_full), u64::MAX as nat),
                file_number(opt_view(charge_full_design), u64::MAX as nat),
            ),
    {
        let percentage = match file_trimmed(capacity) {
            Some(t) => match parse_uint(t.as_slice(), 10, 0xff) {
                Some(v) => v as u8,
                None => 0,
            },
            None => 0,
        };
        let st = match file_trimmed(status) {
            Some(t) => t,
            None => Vec::new(),
        };
        let s = st.as_slice();
        let state = if eq_str(s, "Charging") {
            BatteryState::Charging
        } else if eq_str(s, "Discharging") {
            BatteryState::Discharging
        } else if eq_str(s, "Full") {
            BatteryState::Full
        } else if eq_str(s, "Not charging") {
            BatteryState::NotCharging
        } else {
            BatteryState::Unknown
        };
        let power_microwatts = file_u64(power_now);
        let health = match (file_u64(charge_full), file_u64(charge_full_design)) {
            (Some(f), Some(d)) => if d > 0 {
                Some(((f * 100) / d) as u8)
            } else {
                None
            },
            _ => None,
        };
        BatteryStatus { percentage, state, time_remaining, power_microwatts, health }
    }

    /// The audio status: that read with `wpctl` when it could be run, else
    /// that read with `pactl`.
    pub fn audio_status(wpctl: Option<AudioStatus>, pactl: Option<AudioStatus>) -> (r: Option<
        AudioStatus,
    >)
        ensures
            match wpctl {
                Some(w) => r == Some(w),
                None => r == pactl,
            },
    {
        match wpctl {
            Some(w) => Some(w),
            None => pactl,
        }
    }

    /// The volume word of `wpctl get-volume` (`Volume: 0.50 [MUTED]`), when
    /// the output begins with `Volume: `.
    pub fn wpctl_volume_word(output: &str) -> (r: Option<String>)
        ensures
            match r {
                Some(w) => starts_with(output@, "Volume: "@) && words(output@.skip(8)).len() > 0
                    && w@ == words(output@.skip(8))[0],
                None => !(starts_with(output@, "Volume: "@) && words(output@.skip(8)).len() > 0),
            },
    {
        proof {
            reveal_strlit("Volume: ");
        }
        match strip_prefix_str(chars_of(output).as_slice(), "Volume: ") {
            Some(rest) => {
                let w = split_ws(rest.as_slice());
                if w.len() > 0 {
                    assert(views(w@)[0] == w@[0]@);
                    Some(string_of(w[0].as_slice()))
                } else {
                    None
                }
            },
            None => None,
        }
    }

    /// The audio status read with `wpctl`: the volume percent of the volume
    /// word (`None` when it is not a number), the output of `get-volume` for
    /// the sink, of `inspect` for the sink and of `get-volume` for the
    /// source. A volume boosted above 100% counts as 100%.
    pub fn audio_status_wpctl(
        volume_percent: Option<u8>,
        volume_output: &str,
        inspect_output: &str,
        mic_output: &str,
    ) -> (r: AudioStatus)
        ensures
            r.volume == (if starts_with(volume_output@, "Volume: "@) {
                match volume_percent {
                    Some(p) => if p < 100 {
                        p
                    } else {
                        100
                    },
                    None => 50,
                }
            } else {
                50
            }),
            r.muted == (starts_with(volume_output@, "Volume: "@) && contains(
                volume_output@,
                "[MUTED]"@,
            )),
            r.output_device@ == (match sink_description(lines(inspect_output@)) {
                Some(d) => d,
                None => "Default"@,
            }),
            r.mic_muted == contains(mic_output@, "[MUTED]"@),
    {
        let out = chars_of(volume_output);
        let has_prefix = starts_with_str(out.as_slice(), "Volume: ");
        let volume = if has_prefix {
            match volume_percent {
                Some(p) => if p < 100 {
                    p
                } else {
                    100
                },
                None => 50,
            }
        } else {
            50
        };
        let muted = has_prefix && contains_str(out.as_slice(), "[MUTED]");
        let device = sink_description_exec(inspect_output);
        let output_device = match device {
            Some(d) => string_of(d.as_slice()),
            None => string_from("Default"),
        };
        let mic_muted = contains_str(chars_of(mic_output).as_slice(), "[MUTED]");
        AudioStatus { volume, muted, output_device, mic_muted }
    }

    /// The audio status read with `pactl`: the first percentage of
    /// `get-sink-volume` (50 when there is none, at most 100), and whether
    /// `get-sink-mute` and `get-source-mute` say yes.
    pub fn audio_status_pactl(volume_output: &str, mute_output: &str, mic_mute_output: &str) -> (r:
        AudioStatus)
        ensures
            r.volume == (match first_percent(words(volume_output@)) {
                Some(w) => match parse_unsigned(trim_char_end(w, '%'), 10, u8::MAX as nat) {
                    Some(v) => if v < 100 {
                        v as u8
                    } else {
                        100
                    },
                    None => 50,
                },
                None => 50,
            }),
            r.muted == contains(mute_output@, "yes"@),
            r.output_device@ == "Default"@,
            r.mic_muted == contains(mic_mute_output@, "yes"@),
    {
        let w = split_ws(chars_of(volume_output).as_slice());
        let mut volume: u8 = 50;
        let mut i: usize = 0;
        assert(views(w@).skip(0) =~= views(w@));
        while i < w.len()
            invariant
                i <= w@.len(),
                first_percent(words(volume_output@)) == first_percent(views(w@).skip(i as int)),
                views(w@) == words(volume_output@),
                volume == 50,
            decreases w@.len() - i,
        {
            assert(views(w@).skip(i as int)[0] == w@[i as int]@);
            assert(views(w@).skip(i as int).drop_first() =~= views(w@).skip(i + 1));
            let word = w[i].as_slice();
            if word.len() > 0 && word[word.len() - 1] == '%' {
                let mut j: usize = word.len();
                assert(word@.take(j as int) =~= word@);
                while j > 0 && word[j - 1] == '%'
                    invariant
                        j <= word@.len(),
                        trim_char_end(word@, '%') == trim_char_end(word@.take(j as int), '%'),
                    decreases j,
                {
                    assert(word@.take(j as int).drop_last() =~= word@.take(j - 1));
                    j = j - 1;
                }
                let digits = crate::text::slice_of(word, 0, j);
                assert(digits@ =~= word@.take(j as int));
                let v = match parse_uint(digits.as_slice(), 10, 0xff) {
                    Some(v) => if v < 100 {
                        v as u8
                    } else {
                        100
                    },
                    None => 50,
                };
                let muted = contains_str(chars_of(mute_output).as_slice(), "yes");
                let mic_muted = contains_str(chars_of(mic_mute_output).as_slice(), "yes");
                return AudioStatus {
                    volume: v,
                    muted,
                    output_device: string_from("Default"),
                    mic_muted,
                };
            }
            i = i + 1;
        }
        let muted = contains_str(chars_of(mute_output).as_slice(), "yes");
        let mic_muted = contains_str(chars_of(mic_mute_output).as_slice(), "yes");
        AudioStatus { volume, muted, output_device: string_from("Default"), mic_muted }
    }

    /// The volume argument of `wpctl set-volume` and `pactl
    /// set-sink-volume`: the volume, at most 100, as a percentage.
    pub fn volume_arg(volume: u8) -> (r: String)
        ensures
            r@ == decimal((if volume < 100 { volume } else { 100u8 }) as nat) + "%"@,
    {
        let v = if volume < 100 {
            volume
        } else {
            100
        };
        let mut s = decimal_of(v as u64);
        append_str(&mut s, "%");
        string_of(s.as_slice())
    }

    /// The signal of the WiFi network in use, from `nmcli -t -f
    /// IN-USE,SIGNAL device wifi list`.
    pub fn get_wifi_signal(output: &str) -> (r: Option<u8>)
        ensures
            r == wifi_signal_of(lines(output@)),
    {
        let ls = lines_of(chars_of(output).as_slice());
        let mut i: usize = 0;
        assert(views(ls@).skip(0) =~= views(ls@));
        while i < ls.len()
            invariant
                i <= ls@.len(),
                views(ls@) == lines(output@),
                wifi_signal_of(lines(output@)) == wifi_signal_of(views(ls@).skip(i as int)),
            decreases ls@.len() - i,
        {
            assert(views(ls@).skip(i as int)[0] == ls@[i as int]@);
            assert(views(ls@).skip(i as int).drop_first() =~= views(ls@).skip(i + 1));
            if starts_with_str(ls[i].as_slice(), "*:") {
                proof {
                    reveal_strlit("*:");
                    assert(ls@[i as int]@[1] == "*:"@[1]);
                    crate::text::lemma_split_at_sep(ls@[i as int]@, ':', 1);
                }
                let p = split_on(ls[i].as_slice(), ':');
                assert(views(p@)[1] == p@[1]@);
                return match parse_uint(p[1].as_slice(), 10, 0xff) {
                    Some(v) => Some(v as u8),
                    None => None,
                };
            }
            i = i + 1;
        }
        None
    }

    /// The network indicator, from the devices that `nmcli` lists, the
    /// WiFi signal read for a connected WiFi device, and the active
    /// connections.
    pub fn network_indicator(devices: &str, wifi_signal: Option<u8>, active: &str) -> (r:
        NetworkIndicator)
        ensures
            ({
                let st = indicator_scan(lines(devices@));
                let vpn = vpn_activated(lines(active@));
                &&& r.connection_type == (if vpn && st.0 == NetworkType::NoConnection {
                    NetworkType::VpnOnly
                } else {
                    st.0
                })
                &&& (match r.network_name {
                    Some(n) => Some(n@),
                    None => None,
                }) == st.1
                &&& r.signal_strength == (if st.2 {
                    wifi_signal
                } else {
                    None
                })
                &&& r.vpn_active == vpn
            }),
    {
        let ls = lines_of(chars_of(devices).as_slice());
        let mut connection_type = NetworkType::NoConnection;
        let mut name: Option<Vec<char>> = None;
        let mut read_signal = false;
        let mut i: usize = 0;
        assert(views(ls@).take(0) =~= Seq::<Seq<char>>::empty());
        while i < ls.len()
            invariant
                i <= ls@.len(),
                views(ls@) == lines(devices@),
                indicator_scan(views(ls@).take(i as int)) == (
                    connection_type,
                    match name {
                        Some(n) => Some(n@),
                        None => None,
                    },
                    read_signal,
                ),
            decreases ls@.len() - i,
        {
            assert(views(ls@).take(i + 1).drop_last() =~= views(ls@).take(i as int));
            assert(views(ls@)[i as int] == ls@[i as int]@);
            let p = split_on(ls[i].as_slice(), ':');
            if p.len() >= 3 {
                assert(views(p@)[0] == p@[0]@);
                assert(views(p@)[1] == p@[1]@);
                assert(views(p@)[2] == p@[2]@);
                if eq_str(p[1].as_slice(), "connected") {
                    let t = p[0].as_slice();
                    if eq_str(t, "ethernet") {
                        connection_type = NetworkType::Ethernet;
                        name = Some(p[2].clone());
                    } else if eq_str(t, "wifi") {
                        connection_type = NetworkType::Wifi;
                        name = Some(p[2].clone());
                        read_signal = true;
                    } else if (eq_str(t, "gsm") || eq_str(t, "cdma")) && connection_type
                        == NetworkType::NoConnection {
                        connection_type = NetworkType::Cellular;
                        name = Some(p[2].clone());
                    }
                }
            }
            i = i + 1;
        }
        assert(views(ls@).take(i as int) =~= views(ls@));
        let al = lines_of(chars_of(active).as_slice());
        let mut vpn_active = false;
        let mut k: usize = 0;
        while k < al.len()
            invariant
                k <= al@.len(),
                views(al@) == lines(active@),
                vpn_active == exists|j: int|
                    0 <= j < k && starts_with(#[trigger] views(al@)[j], "vpn:"@) && contains(
                        views(al@)[j],
                        "activated"@,
                    ),
            decreases al@.len() - k,
        {
            assert(views(al@)[k as int] == al@[k as int]@);
            if starts_with_str(al[k].as_slice(), "vpn:") && contains_str(
                al[k].as_slice(),
                "activated",
            ) {
                vpn_active = true;
            }
            k = k + 1;
        }
        if vpn_active && connection_type == NetworkType::NoConnection {
            connection_type = NetworkType::VpnOnly;
        }
        NetworkIndicator {
            connection_type,
            signal_strength: if read_signal {
                wifi_signal
            } else {
                None
            },
            network_name: match name {
                Some(n) => Some(string_of(n.as_slice())),
                None => None,
            },
            vpn_active,
        }
    }

    /// The Bluetooth status, from `bluetoothctl show` and `bluetoothctl
    /// devices Connected`: the number of devices is that of the lines,
    /// truncated to a byte.
    pub fn bluetooth_status(show: &str, connected: &str) -> (r: BluetoothStatus)
        ensures
            r.available,
            r.powered == bt_powered(lines(show@)),
            r.connected_devices == (lines(connected@).len() as u8),
    {
        let ls = lines_of(chars_of(show).as_slice());
        let mut powered = false;
        let mut k: usize = 0;
        while k < ls.len()
            invariant
                k <= ls@.len(),
                views(ls@) == lines(show@),
                powered == exists|j: int|
                    0 <= j < k && contains(#[trigger] views(ls@)[j], "Powered:"@) && contains(
                        views(ls@)[j],
                        "yes"@,
                    ),
            decreases ls@.len() - k,
        {
            assert(views(ls@)[k as int] == ls@[k as int]@);
            if contains_str(ls[k].as_slice(), "Powered:") && contains_str(ls[k].as_slice(), "yes") {
                powered = true;
            }
            k = k + 1;
        }
        let devices = lines_of(chars_of(connected).as_slice());
        BluetoothStatus {
            available: true,
            powered,
            connected_devices: devices.len() as u8,
        }
    }

    /// The `bluetoothctl power` argument that toggles the adapter.
    pub fn bluetooth_toggle_action(powered: bool) -> (r: &'static str)
        ensures
            r@ == (if powered {
                "off"@
            } else {
                "on"@
            }),
    {
        if powered {
            "off"
        } else {
            "on"
        }
    }

    /// The time zone: `TZ`, else the part of the `/etc/localtime` link
    /// after `/zoneinfo/`, else `UTC`.
    pub fn timezone_name(tz_var: Option<&str>, localtime_link: Option<&str>) -> (r: String)
        ensures
            r@ == (match tz_var {
                Some(t) => t@,
                None => match localtime_link {
                    Some(l) => match second_piece(l@, "/zoneinfo/"@) {
                        Some(z) => z,
                        None => "UTC"@,
                    },
                    None => "UTC"@,
                },
            }),
    {
        match tz_var {
            Some(t) => string_from(t),
            None => match localtime_link {
                Some(l) => {
                    proof {
                        reveal_strlit("/zoneinfo/");
                    }
                    match second_piece_exec(chars_of(l).as_slice(), "/zoneinfo/") {
                        Some(z) => string_of(z.as_slice()),
                        None => string_from("UTC"),
                    }
                },
                None => string_from("UTC"),
            },
        }
    }

    /// The date and time, from the timestamp, the time zone variable and
    /// link, and the outputs of `date +%H:%M` and `date '+%a, %b %d'`.
    pub fn datetime_info(
        timestamp: i64,
        tz_var: Option<&str>,
        localtime_link: Option<&str>,
        time_output: Option<&str>,
        date_output: Option<&str>,
    ) -> (r: DateTimeInfo)
        ensures
            r.timestamp == timestamp,
            r.timezone@ == (match tz_var {
                Some(t) => t@,
                None => match localtime_link {
                    Some(l) => match second_piece(l@, "/zoneinfo/"@) {
                        Some(z) => z,
                        None => "UTC"@,
                    },
                    None => "UTC"@,
                },
            }),
            r.time_formatted@ == (match time_output {
                Some(o) => trim(o@),
                None => "00:00"@,
            }),
            r.date_formatted@ == (match date_output {
                Some(o) => trim(o@),
                None => "Unknown"@,
            }),
    {
        DateTimeInfo {
            timestamp,
            timezone: Self::timezone_name(tz_var, localtime_link),
            time_formatted: match time_output {
                Some(o) => string_of(trimmed(chars_of(o).as_slice()).as_slice()),
                None => string_from("00:00"),
            },
            date_formatted: match date_output {
                Some(o) => string_of(trimmed(chars_of(o).as_slice()).as_slice()),
                None => string_from("Unknown"),
            },
        }
    }

    /// The memory used and the total, in bytes, that `/proc/meminfo`
    /// gives.
    pub fn resource_usage(meminfo: &str) -> (r: ResourceUsage)
        requires
            meminfo_fits(lines(meminfo@)),
        ensures
            r.memory_total == meminfo_of(lines(meminfo@)).0 * 1024,
            r.memory_used == (if meminfo_of(lines(meminfo@)).0 >= meminfo_of(lines(meminfo@)).1 {
                (meminfo_of(lines(meminfo@)).0 - meminfo_of(lines(meminfo@)).1) * 1024
            } else {
                0
            }),
    {
        let ls = lines_of(chars_of(meminfo).as_slice());
        let mut total: u64 = 0;
        let mut available: u64 = 0;
        let mut i: usize = 0;
        assert(views(ls@).take(0) =~= Seq::<Seq<char>>::empty());
        while i < ls.len()
            invariant
                i <= ls@.len(),
                views(ls@) == lines(meminfo@),
                meminfo_fits(views(ls@)),
                total == meminfo_of(views(ls@).take(i as int)).0 * 1024,
                available == meminfo_of(views(ls@).take(i as int)).1 * 1024,
            decreases ls@.len() - i,
        {
            assert(views(ls@).take(i + 1).drop_last() =~= views(ls@).take(i as int));
            assert(views(ls@)[i as int] == ls@[i as int]@);
            proof {
                reveal_strlit("MemTotal:");
                reveal_strlit("MemAvailable:");
            }
            if let Some(v) = strip_prefix_str(ls[i].as_slice(), "MemTotal:") {
                total = kilobytes_exec(v.as_slice()) * 1024;
            } else if let Some(v) = strip_prefix_str(ls[i].as_slice(), "MemAvailable:") {
                available = kilobytes_exec(v.as_slice()) * 1024;
            }
            i = i + 1;
        }
        assert(views(ls@).take(i as int) =~= views(ls@));
        let used = if total >= available {
            total - available
        } else {
            0
        };
        ResourceUsage { memory_used: used, memory_total: total }
    }

    /// The idle and total jiffies of the first line of `/proc/stat`: its
    /// fourth number and the sum of all, when it has four numbers or more.
    pub fn cpu_stats(stat: &str) -> (r: Option<(u64, u64)>)
        requires
            (lines(stat@).len() > 0 && cpu_numbers(words(lines(stat@)[0])).len() >= 4) ==> sum_of(
                cpu_numbers(words(lines(stat@)[0])),
            ) <= u64::MAX,
        ensures
            match r {
                Some((idle, total)) => lines(stat@).len() > 0 && cpu_numbers(
                    words(lines(stat@)[0]),
                ).len() >= 4 && idle == cpu_numbers(words(lines(stat@)[0]))[3] && total
                    == sum_of(cpu_numbers(words(lines(stat@)[0]))),
                None => lines(stat@).len() == 0 || cpu_numbers(words(lines(stat@)[0])).len() < 4,
            },
    {
        let ls = lines_of(chars_of(stat).as_slice());
        if ls.len() == 0 {
            return None;
        }
        assert(views(ls@)[0] == ls@[0]@);
        let w = split_ws(ls[0].as_slice());
        let ghost nums_all = cpu_numbers(views(w@));
        let mut nums: Vec<u64> = Vec::new();
        let mut total: u64 = 0;
        let mut k: usize = 1;
        if w.len() <= 1 {
            assert(cpu_numbers(views(w@)).len() == 0);
            return None;
        }
        while k < w.len()
            invariant
                1 <= k <= w@.len(),
                nums_all == cpu_numbers(views(w@)),
                nums@.map_values(|x: u64| x as nat) == cpu_numbers(views(w@).take(k as int)),
                total as nat == (if sum_of(cpu_numbers(views(w@).take(k as int))) <= u64::MAX {
                    sum_of(cpu_numbers(views(w@).take(k as int)))
                } else {
                    u64::MAX as nat
                }),
            decreases w@.len() - k,
        {
            assert(views(w@).take(k + 1).drop_last() =~= views(w@).take(k as int));
            assert(views(w@)[k as int] == w@[k as int]@);
            assert(views(w@).take(k + 1).last() == w@[k as int]@);
            match parse_uint(w[k].as_slice(), 10, 0xffff_ffff_ffff_ffff) {
                Some(v) => {
                    let ghost before = nums@;
                    let ghost prev = cpu_numbers(views(w@).take(k as int));
                    assert(cpu_numbers(views(w@).take(k + 1)) == prev.push(v as nat));
                    assert(prev.push(v as nat).drop_last() =~= prev);
                    assert(sum_of(prev.push(v as nat)) == sum_of(prev) + v);
                    nums.push(v);
                    assert(nums@.map_values(|x: u64| x as nat) =~= before.map_values(
                        |x: u64| x as nat,
                    ).push(v as nat));
                    total = if total <= u64::MAX - v {
                        total + v
                    } else {
                        u64::MAX
                    };
                },
                None => {},
            }
            k = k + 1;
        }
        assert(views(w@).take(k as int) =~= views(w@));
        if nums.len() < 4 {
            return None;
        }
        assert(nums@.map_values(|x: u64| x as nat)[3] == nums@[3] as nat);
        Some((nums[3], total))
    }

    /// The applets' status, with the defaults of those that could not be
    /// read: 50% volume on an unknown device, no network, no Bluetooth and
    /// no memory figures.
    pub fn status(
        battery: Option<BatteryStatus>,
        audio: Option<AudioStatus>,
        network: Option<NetworkIndicator>,
        bluetooth: Option<BluetoothStatus>,
        datetime: DateTimeInfo,
        resources: Option<ResourceUsage>,
    ) -> (r: AppletStatus)
        ensures
            r.battery == battery,
            match audio {
                Some(a) => r.audio == a,
                None => r.audio.volume == 50 && !r.audio.muted && r.audio.output_device@
                    == "Unknown"@ && !r.audio.mic_muted,
            },
            match network {
                Some(n) => r.network == n,
                None => r.network.connection_type == NetworkType::NoConnection
                    && r.network.signal_strength is None && r.network.network_name is None
                    && !r.network.vpn_active,
            },
            r.bluetooth == (match bluetooth {
                Some(b) => b,
                None => BluetoothStatus { available: false, powered: false, connected_devices: 0 },
            }),
            r.datetime == datetime,
            r.resources == (match resources {
                Some(x) => x,
                None => ResourceUsage { memory_used: 0, memory_total: 0 },
            }),
    {
        AppletStatus {
            battery,
            audio: match audio {
                Some(a) => a,
                None => AudioStatus {
                    volume: 50,
                    muted: false,
                    output_device: string_from("Unknown"),
                    mic_muted: false,
                },
            },
            network: match network {
                Some(n) => n,
                None => NetworkIndicator {
                    connection_type: NetworkType::NoConnection,
                    signal_strength: None,
                    network_name: None,
                    vpn_active: false,
                },
            },
            bluetooth: match bluetooth {
                Some(b) => b,
                None => BluetoothStatus { available: false, powered: false, connected_devices: 0 },
            },
            datetime,
            resources: match resources {
                Some(x) => x,
                None => ResourceUsage { memory_used: 0, memory_total: 0 },
            },
        }
    }
}

/// The sum of the numbers of a prefix is at most that of the whole.
fn kilobytes_exec(v: &[char]) -> (r: u64)
    ensures
        r == kilobytes(v@),
{
    let w = split_ws(v);
    if w.len() > 0 {
        assert(views(w@)[0] == w@[0]@);
        match parse_uint(w[0].as_slice(), 10, 0xffff_ffff_ffff_ffff) {
            Some(n) => n,
            None => 0,
        }
    } else {
        0
    }
}

/// The description of the sink that `wpctl inspect` prints.
fn sink_description_exec(output: &str) -> (r: Option<Vec<char>>)
    ensures
        match sink_description(lines(output@)) {
            Some(d) => r matches Some(x) && x@ == d,
            None => r is None,
        },
{
    let ls = lines_of(chars_of(output).as_slice());
    let mut i: usize = 0;
    assert(views(ls@).skip(0) =~= views(ls@));
    while i < ls.len()
        invariant
            i <= ls@.len(),
            views(ls@) == lines(output@),
            sink_description(lines(output@)) == sink_description(views(ls@).skip(i as int)),
        decreases ls@.len() - i,
    {
        assert(views(ls@).skip(i as int)[0] == ls@[i as int]@);
        assert(views(ls@).skip(i as int).drop_first() =~= views(ls@).skip(i + 1));
        if contains_str(ls[i].as_slice(), "node.description") {
            let p = split_on(ls[i].as_slice(), '=');
            if p.len() > 1 {
                assert(views(p@)[1] == p@[1]@);
                let t = trimmed(p[1].as_slice());
                return Some(trim_char_exec(t.as_slice(), '"'));
            }
            return None;
        }
        i = i + 1;
    }
    None
}

} // verus!
