//! Network management through NetworkManager: the connection status, WiFi
//! networks, VPN connections and the names that imports give them, read
//! from the output of `nmcli`.
use vstd::prelude::*;
use crate::order::{law_sort_by_key, sort_by_key, stable_sort, views_of, SortKey};
use crate::text::{
    chars_of, contains, contains_str, eq_str, lemma_split_nonempty, lines, lines_of,
    parse_uint, parse_unsigned, seq_eq, split, split_on, string_from, string_of, string_views,
    strip_suffixes, trim, trim_end_matches_str, trimmed, views, lemma_push_contains,
};

verus! {

/// WiFi access point information
#[derive(Debug, Clone)]
pub struct WifiNetwork {
    /// SSID of the network
    pub ssid: String,
    /// Signal strength (0-100)
    pub signal: u8,
    /// Security type (e.g., "WPA2", "WPA3", "Open")
    pub security: String,
    /// Whether currently connected
    pub connected: bool,
    /// BSSID (MAC address)
    pub bssid: String,
    /// Frequency in MHz
    pub frequency: u32,
}

/// What a WiFi network holds.
pub struct WifiView {
    pub ssid: Seq<char>,
    pub signal: u8,
    pub security: Seq<char>,
    pub connected: bool,
    pub bssid: Seq<char>,
    pub frequency: u32,
}

impl View for WifiNetwork {
    type V = WifiView;

    open spec fn view(&self) -> WifiView {
        WifiView {
            ssid: self.ssid@,
            signal: self.signal,
            security: self.security@,
            connected: self.connected,
            bssid: self.bssid@,
            frequency: self.frequency,
        }
    }
}

impl SortKey for WifiNetwork {
    /// Stronger networks come first.
    open spec fn precedes(a: WifiView, b: WifiView) -> bool {
        a.signal > b.signal
    }

    fn precedes_exec(&self, other: &Self) -> (r: bool) {
        self.signal > other.signal
    }

    proof fn lemma_strict_weak_order(a: WifiView, b: WifiView, c: WifiView) {
    }
}

/// VPN connection information
#[derive(Debug, Clone)]
pub struct VpnConnection {
    /// Connection name
    pub name: String,
    /// VPN type (e.g., "openvpn", "wireguard")
    pub vpn_type: String,
    /// Whether currently active
    pub active: bool,
    /// UUID for the connection
    pub uuid: String,
}

/// What a VPN connection holds.
pub struct VpnView {
    pub name: Seq<char>,
    pub vpn_type: Seq<char>,
    pub active: bool,
    pub uuid: Seq<char>,
}

impl View for VpnConnection {
    type V = VpnView;

    open spec fn view(&self) -> VpnView {
        VpnView {
            name: self.name@,
            vpn_type: self.vpn_type@,
            active: self.active,
            uuid: self.uuid@,
        }
    }
}

/// Network connection status
#[derive(Debug, Clone)]
pub struct NetworkStatus {
    /// Whether WiFi is enabled
    pub wifi_enabled: bool,
    /// Whether networking is enabled
    pub networking_enabled: bool,
    /// Currently connected WiFi SSID (if any)
    pub connected_wifi: Option<String>,
    /// Currently active VPN (if any)
    pub active_vpn: Option<String>,
    /// Primary connection type
    pub connection_type: ConnectionType,
}

#[derive(Debug, Clone, Copy, PartialEq, Eq, Structural)]
pub enum ConnectionType {
    NoConnection,
    Ethernet,
    Wifi,
    Cellular,
}

/// Network manager backend
pub struct NetworkBackend;

/// The view of an optional string.
pub open spec fn opt_v(o: Option<String>) -> Option<Seq<char>> {
    match o {
        Some(s) => Some(s@),
        None => None,
    }
}

/// The connected WiFi, the active VPN and the connection type after a
/// line of `nmcli -t -f NAME,TYPE,DEVICE connection show --active`: a
/// wireless connection is the WiFi and makes the type WiFi; ethernet and
/// mobile connections set the type when none is set yet.
pub open spec fn status_line(
    st: (Option<Seq<char>>, Option<Seq<char>>, ConnectionType),
    line: Seq<char>,
) -> (Option<Seq<char>>, Option<Seq<char>>, ConnectionType) {
    let p = split(line, ':');
    if p.len() >= 2 {
        let name = p[0];
        let t = p[1];
        if t == "802-11-wireless"@ {
            (Some(name), st.1, ConnectionType::Wifi)
        } else if t == "802-3-ethernet"@ {
            (st.0, st.1, if st.2 == ConnectionType::NoConnection { ConnectionType::Ethernet } else { st.2 })
        } else if t == "vpn"@ {
            (st.0, Some(name), st.2)
        } else if t == "gsm"@ || t == "cdma"@ {
            (st.0, st.1, if st.2 == ConnectionType::NoConnection { ConnectionType::Cellular } else { st.2 })
        } else {
            st
        }
    } else {
        st
    }
}

/// The state after the lines `ls`.
pub open spec fn status_scan(ls: Seq<Seq<char>>) -> (Option<Seq<char>>, Option<Seq<char>>, ConnectionType)
    decreases ls.len(),
{
    if ls.len() == 0 {
        (None, None, ConnectionType::NoConnection)
    } else {
        status_line(status_scan(ls.drop_last()), ls.last())
    }
}

/// Whether a radio is reported enabled.
pub open spec fn reports_enabled(output: Seq<char>) -> bool {
    trim(output) == "enabled"@
}

/// The SSIDs of the networks `n`.
pub open spec fn ssids(n: Seq<WifiView>) -> Seq<Seq<char>> {
    n.map_values(|w: WifiView| w.ssid)
}

/// The network that a line of `nmcli -t -f
/// SSID,SIGNAL,SECURITY,IN-USE,BSSID,FREQ device wifi list` with six fields
/// or more describes.
pub open spec fn wifi_of(p: Seq<Seq<char>>) -> WifiView {
    WifiView {
        ssid: p[0],
        signal: match parse_unsigned(p[1], 10, u8::MAX as nat) {
            Some(v) => v as u8,
            None => 0,
        },
        security: p[2],
        connected: p[3] == "*"@,
        bssid: p[4],
        frequency: match parse_unsigned(strip_suffixes(p[5], " MHz"@), 10, u32::MAX as nat) {
            Some(v) => v as u32,
            None => 0,
        },
    }
}

/// The networks of the lines `ls`, in order: those with a non-empty SSID
/// not seen on an earlier line.
pub open spec fn wifi_scan(ls: Seq<Seq<char>>) -> Seq<WifiView>
    decreases ls.len(),
{
    if ls.len() == 0 {
        Seq::<WifiView>::empty()
    } else {
        let prev = wifi_scan(ls.drop_last());
        let p = split(ls.last(), ':');
        if p.len() >= 6 && p[0].len() > 0 && !ssids(prev).contains(p[0]) {
            prev.push(wifi_of(p))
        } else {
            prev
        }
    }
}

proof fn lemma_scan_distinct(ls: Seq<Seq<char>>)
    ensures
        forall|i: int| 0 <= i < wifi_scan(ls).len() ==> #[trigger] wifi_scan(ls)[i].ssid.len() > 0,
        forall|i: int, j: int|
            0 <= i < j < wifi_scan(ls).len() ==> #[trigger] wifi_scan(ls)[i].ssid
                != #[trigger] wifi_scan(ls)[j].ssid,
    decreases ls.len(),
{
    if ls.len() > 0 {
        lemma_scan_distinct(ls.drop_last());
        let prev = wifi_scan(ls.drop_last());
        let p = split(ls.last(), ':');
        if p.len() >= 6 && p[0].len() > 0 && !ssids(prev).contains(p[0]) {
            let r = prev.push(wifi_of(p));
            assert forall|i: int, j: int| 0 <= i < j < r.len() implies #[trigger] r[i].ssid
                != #[trigger] r[j].ssid by {
                if j == r.len() - 1 {
                    assert(ssids(prev)[i] == prev[i].ssid);
                } else {
                    assert(r[i] == prev[i] && r[j] == prev[j]);
                }
            }
            assert forall|i: int| 0 <= i < r.len() implies #[trigger] r[i].ssid.len() > 0 by {
                if i < r.len() - 1 {
                    assert(r[i] == prev[i]);
                }
            }
        }
    }
}

/// A scan lists each network once and strongest first: no SSID is empty,
/// no two networks share an SSID, and no network is stronger than one
/// listed before it.
pub proof fn law_scan_distinct_strongest_first(list_output: Seq<char>)
    ensures
        ({
            let r = sort_by_key::<WifiNetwork>(wifi_scan(lines(list_output)));
            &&& forall|i: int| 0 <= i < r.len() ==> #[trigger] r[i].ssid.len() > 0
            &&& forall|i: int, j: int|
                0 <= i < j < r.len() ==> #[trigger] r[i].ssid != #[trigger] r[j].ssid
            &&& forall|i: int, j: int|
                0 <= i < j < r.len() ==> #[trigger] r[i].signal >= #[trigger] r[j].signal
        }),
{
    broadcast use vstd::seq_lib::group_to_multiset_ensures;

    let s = wifi_scan(lines(list_output));
    let r = sort_by_key::<WifiNetwork>(s);
    lemma_scan_distinct(lines(list_output));
    law_sort_by_key::<WifiNetwork>(s);
    assert(s.no_duplicates()) by {
        assert forall|i: int, j: int| 0 <= i < s.len() && 0 <= j < s.len() && i != j implies s[i]
            != s[j] by {
            if i < j {
                assert(s[i].ssid != s[j].ssid);
            } else {
                assert(s[j].ssid != s[i].ssid);
            }
        }
    }
    s.lemma_multiset_has_no_duplicates();
    r.lemma_multiset_has_no_duplicates_conv();
    assert forall|i: int| 0 <= i < r.len() implies s.contains(#[trigger] r[i]) by {
        assert(r.to_multiset().contains(r[i]));
    }
    assert forall|i: int| 0 <= i < r.len() implies #[trigger] r[i].ssid.len() > 0 by {
        assert(s.contains(r[i]));
        let a = choose|a: int| 0 <= a < s.len() && s[a] == r[i];
        assert(s[a].ssid.len() > 0);
    }
    assert forall|i: int, j: int| 0 <= i < j < r.len() implies #[trigger] r[i].ssid
        != #[trigger] r[j].ssid by {
        assert(s.contains(r[i]));
        assert(s.contains(r[j]));
        let a = choose|a: int| 0 <= a < s.len() && s[a] == r[i];
        let b = choose|b: int| 0 <= b < s.len() && s[b] == r[j];
        assert(r[i] != r[j]);
        assert(a != b);
        if a < b {
            assert(s[a].ssid != s[b].ssid);
        } else {
            assert(s[b].ssid != s[a].ssid);
        }
    }
    assert forall|i: int, j: int| 0 <= i < j < r.len() implies #[trigger] r[i].signal
        >= #[trigger] r[j].signal by {
        assert(!WifiNetwork::precedes(r[j], r[i]));
    }
}

/// The names of the active VPN connections: the first field of each line of
/// `nmcli -t -f NAME,TYPE connection show --active` that mentions `:vpn`.
pub open spec fn active_vpn_names(ls: Seq<Seq<char>>) -> Seq<Seq<char>>
    decreases ls.len(),
{
    if ls.len() == 0 {
        Seq::<Seq<char>>::empty()
    } else if contains(ls.last(), ":vpn"@) {
        active_vpn_names(ls.drop_last()).push(split(ls.last(), ':')[0])
    } else {
        active_vpn_names(ls.drop_last())
    }
}

/// The VPN connections among the lines of `nmcli -t -f NAME,TYPE,UUID
/// connection show`, as name and UUID, in order.
pub open spec fn vpn_entries(ls: Seq<Seq<char>>) -> Seq<(Seq<char>, Seq<char>)>
    decreases ls.len(),
{
    if ls.len() == 0 {
        Seq::<(Seq<char>, Seq<char>)>::empty()
    } else {
        let p = split(ls.last(), ':');
        if p.len() >= 3 && p[1] == "vpn"@ {
            vpn_entries(ls.drop_last()).push((p[0], p[2]))
        } else {
            vpn_entries(ls.drop_last())
        }
    }
}

/// The part of `s` after its last `.`, all of `s` when it has none.
pub open spec fn after_last_dot(s: Seq<char>) -> Seq<char> {
    let p = split(s, '.');
    p[p.len() - 1]
}

/// The VPN type that `nmcli -t -f vpn.service-type connection show` gives:
/// the last dot-separated part of the service type on its first line, or
/// `unknown`.
pub open spec fn vpn_type_of(output: Option<Seq<char>>) -> Seq<char> {
    match output {
        Some(o) => {
            let ls = lines(o);
            if ls.len() > 0 && split(ls[0], ':').len() > 1 {
                after_last_dot(split(ls[0], ':')[1])
            } else {
                "unknown"@
            }
        },
        None => "unknown"@,
    }
}

/// The name of the first device of `nmcli -t -f DEVICE,TYPE device` whose
/// line mentions `:wifi`.
pub open spec fn wifi_device_of(ls: Seq<Seq<char>>) -> Option<Seq<char>>
    decreases ls.len(),
{
    if ls.len() == 0 {
        None
    } else if contains(ls[0], ":wifi"@) {
        Some(split(ls[0], ':')[0])
    } else {
        wifi_device_of(ls.drop_first())
    }
}

/// The name of an imported connection: the first quoted part of what
/// `nmcli connection import` printed, else the file's stem, else the
/// default name.
pub open spec fn imported_name_of(stdout: Seq<char>, stem: Option<Seq<char>>, default_name: Seq<char>) -> Seq<
    char,
> {
    let p = split(stdout, '\'');
    if p.len() > 1 {
        p[1]
    } else {
        match stem {
            Some(s) => s,
            None => default_name,
        }
    }
}

/// The name of an imported connection and, when a different name was asked
/// for, the name it has to be renamed from.
#[derive(Debug, Clone)]
pub struct ImportOutcome {
    pub name: String,
    pub rename_from: Option<String>,
}

fn piece(p: &Vec<Vec<char>>, i: usize) -> (r: Vec<char>)
    requires
        i < p@.len(),
    ensures
        r@ == views(p@)[i as int],
{
    assert(views(p@)[i as int] == p@[i as int]@);
    p[i].clone()
}

impl NetworkBackend {
    /// Whether `nmcli radio wifi` or `nmcli networking` reports `enabled`.
    pub fn is_wifi_enabled(output: &str) -> (r: bool)
        ensures
            r == reports_enabled(output@),
    {
        eq_str(trimmed(chars_of(output).as_slice()).as_slice(), "enabled")
    }

    /// Whether `nmcli networking` reports `enabled`.
    pub fn is_networking_enabled(output: &str) -> (r: bool)
        ensures
            r == reports_enabled(output@),
    {
        Self::is_wifi_enabled(output)
    }

    /// The network status, from the outputs of `nmcli radio wifi`,
    /// `nmcli networking` and the active connections.
    pub fn status(wifi_radio: &str, networking: &str, active: &str) -> (r: NetworkStatus)
        ensures
            r.wifi_enabled == reports_enabled(wifi_radio@),
            r.networking_enabled == reports_enabled(networking@),
            (opt_v(r.connected_wifi), opt_v(r.active_vpn), r.connection_type) == status_scan(
                lines(active@),
            ),
    {
        let wifi_enabled = Self::is_wifi_enabled(wifi_radio);
        let networking_enabled = Self::is_networking_enabled(networking);
        let ls = lines_of(chars_of(active).as_slice());
        let mut connected_wifi: Option<Vec<char>> = None;
        let mut active_vpn: Option<Vec<char>> = None;
        let mut connection_type = ConnectionType::NoConnection;
        let mut i: usize = 0;
        assert(views(ls@).take(0) =~= Seq::<Seq<char>>::empty());
        while i < ls.len()
            invariant
                i <= ls@.len(),
                views(ls@) == lines(active@),
                status_scan(views(ls@).take(i as int)) == (
                    match connected_wifi {
                        Some(v) => Some(v@),
                        None => None,
                    },
                    match active_vpn {
                        Some(v) => Some(v@),
                        None => None,
                    },
                    connection_type,
                ),
            decreases ls@.len() - i,
        {
            assert(views(ls@).take(i + 1).drop_last() =~= views(ls@).take(i as int));
            assert(views(ls@)[i as int] == ls@[i as int]@);
            let p = split_on(ls[i].as_slice(), ':');
            if p.len() >= 2 {
                let name = piece(&p, 0);
                let t = piece(&p, 1);
                let t = t.as_slice();
                if eq_str(t, "802-11-wireless") {
                    connected_wifi = Some(name);
                    connection_type = ConnectionType::Wifi;
                } else if eq_str(t, "802-3-ethernet") {
                    if connection_type == ConnectionType::NoConnection {
                        connection_type = ConnectionType::Ethernet;
                    }
                } else if eq_str(t, "vpn") {
                    active_vpn = Some(name);
                } else if eq_str(t, "gsm") || eq_str(t, "cdma") {
                    if connection_type == ConnectionType::NoConnection {
                        connection_type = ConnectionType::Cellular;
                    }
                }
            }
            i = i + 1;
        }
        assert(views(ls@).take(i as int) =~= views(ls@));
        NetworkStatus {
            wifi_enabled,
            networking_enabled,
            connected_wifi: match connected_wifi {
                Some(v) => Some(string_of(v.as_slice())),
                None => None,
            },
            active_vpn: match active_vpn {
                Some(v) => Some(string_of(v.as_slice())),
                None => None,
            },
            connection_type,
        }
    }

    /// The WiFi networks that the network list of `nmcli` describes, each
    /// SSID once, strongest first.
    pub fn scan_wifi(list_output: &str) -> (r: Vec<WifiNetwork>)
        ensures
            views_of(r@) == sort_by_key::<WifiNetwork>(wifi_scan(lines(list_output@))),
    {
        let ls = lines_of(chars_of(list_output).as_slice());
        let mut networks: Vec<WifiNetwork> = Vec::new();
        let mut i: usize = 0;
        assert(views(ls@).take(0) =~= Seq::<Seq<char>>::empty());
        assert(views_of(networks@) =~= Seq::<WifiView>::empty());
        while i < ls.len()
            invariant
                i <= ls@.len(),
                views(ls@) == lines(list_output@),
                views_of(networks@) == wifi_scan(views(ls@).take(i as int)),
            decreases ls@.len() - i,
        {
            assert(views(ls@).take(i + 1).drop_last() =~= views(ls@).take(i as int));
            assert(views(ls@)[i as int] == ls@[i as int]@);
            let p = split_on(ls[i].as_slice(), ':');
            if p.len() >= 6 {
                let ssid = piece(&p, 0);
                let ghost seen = ssids(views_of(networks@));
                let mut dup = false;
                let mut k: usize = 0;
                while k < networks.len()
                    invariant
                        k <= networks@.len(),
                        seen == ssids(views_of(networks@)),
                        dup == seen.take(k as int).contains(ssid@),
                    decreases networks@.len() - k,
                {
                    assert(seen.take(k + 1) =~= seen.take(k as int).push(seen[k as int]));
                    assert(seen[k as int] == networks@[k as int].ssid@);
                    proof {
                        lemma_push_contains(seen.take(k as int), seen[k as int], ssid@);
                    }
                    let other = chars_of(networks[k].ssid.as_str());
                    if seq_eq(other.as_slice(), ssid.as_slice()) {
                        dup = true;
                    }
                    k = k + 1;
                }
                assert(seen.take(k as int) =~= seen);
                if ssid.len() > 0 && !dup {
                    let signal = match parse_uint(piece(&p, 1).as_slice(), 10, 0xff) {
                        Some(v) => v as u8,
                        None => 0,
                    };
                    let freq = trim_end_matches_str(piece(&p, 5).as_slice(), " MHz");
                    let frequency = match parse_uint(freq.as_slice(), 10, 0xffff_ffff) {
                        Some(v) => v as u32,
                        None => 0,
                    };
                    let w = WifiNetwork {
                        ssid: string_of(ssid.as_slice()),
                        signal,
                        security: string_of(piece(&p, 2).as_slice()),
                        connected: eq_str(piece(&p, 3).as_slice(), "*"),
                        bssid: string_of(piece(&p, 4).as_slice()),
                        frequency,
                    };
                    let ghost before = networks@;
                    networks.push(w);
                    assert(views_of(networks@) =~= views_of(before).push(w@));
                }
            }
            i = i + 1;
        }
        assert(views(ls@).take(i as int) =~= views(ls@));
        stable_sort(networks)
    }

    /// The VPN type that `nmcli -t -f vpn.service-type connection show`
    /// gives, or `unknown` when it could not be run.
    pub fn get_vpn_type(output: Option<&str>) -> (r: String)
        ensures
            r@ == vpn_type_of(
                match output {
                    Some(o) => Some(o@),
                    None => None,
                },
            ),
    {
        if let Some(o) = output {
            let ls = lines_of(chars_of(o).as_slice());
            if ls.len() > 0 {
                assert(views(ls@)[0] == ls@[0]@);
                let p = split_on(ls[0].as_slice(), ':');
                if p.len() > 1 {
                    let service = piece(&p, 1);
                    let parts = split_on(service.as_slice(), '.');
                    proof {
                        lemma_split_nonempty(service@, '.');
                    }
                    return string_of(piece(&parts, parts.len() - 1).as_slice());
                }
            }
        }
        string_from("unknown")
    }

    /// The UUIDs of the VPN connections that `nmcli -t -f NAME,TYPE,UUID
    /// connection show` lists, in order; their types are read with these.
    pub fn vpn_uuids(connections: &str) -> (r: Vec<String>)
        ensures
            string_views(r@) == vpn_entries(lines(connections@)).map_values(
                |e: (Seq<char>, Seq<char>)| e.1,
            ),
    {
        let entries = Self::vpn_entries_exec(connections);
        let mut r: Vec<String> = Vec::new();
        let mut i: usize = 0;
        let ghost es = vpn_entries(lines(connections@));
        while i < entries.len()
            invariant
                i <= entries@.len(),
                entries@.len() == es.len(),
                forall|k: int| 0 <= k < es.len() ==> (#[trigger] entries@[k]).1@ == es[k].1,
                string_views(r@) == es.take(i as int).map_values(|e: (Seq<char>, Seq<char>)| e.1),
            decreases entries@.len() - i,
        {
            let ghost before = r@;
            let u = entries[i].1.clone();
            assert(u@ == es[i as int].1);
            r.push(u);
            assert(string_views(r@) =~= string_views(before).push(u@));
            assert(es.take(i + 1) =~= es.take(i as int).push(es[i as int]));
            assert(string_views(r@) =~= es.take(i + 1).map_values(
                |e: (Seq<char>, Seq<char>)| e.1,
            ));
            i = i + 1;
        }
        assert(es.take(i as int) =~= es);
        r
    }

    fn vpn_entries_exec(connections: &str) -> (r: Vec<(String, String)>)
        ensures
            r@.len() == vpn_entries(lines(connections@)).len(),
            forall|k: int|
                0 <= k < r@.len() ==> (#[trigger] r@[k]).0@ == vpn_entries(lines(connections@))[k].0
                    && r@[k].1@ == vpn_entries(lines(connections@))[k].1,
    {
        let ls = lines_of(chars_of(connections).as_slice());
        let mut r: Vec<(String, String)> = Vec::new();
        let mut i: usize = 0;
        assert(views(ls@).take(0) =~= Seq::<Seq<char>>::empty());
        while i < ls.len()
            invariant
                i <= ls@.len(),
                views(ls@) == lines(connections@),
                r@.len() == vpn_entries(views(ls@).take(i as int)).len(),
                forall|k: int|
                    0 <= k < r@.len() ==> (#[trigger] r@[k]).0@ == vpn_entries(
                        views(ls@).take(i as int),
                    )[k].0 && r@[k].1@ == vpn_entries(views(ls@).take(i as int))[k].1,
            decreases ls@.len() - i,
        {
            assert(views(ls@).take(i + 1).drop_last() =~= views(ls@).take(i as int));
            assert(views(ls@)[i as int] == ls@[i as int]@);
            let p = split_on(ls[i].as_slice(), ':');
            if p.len() >= 3 && eq_str(piece(&p, 1).as_slice(), "vpn") {
                let name = string_of(piece(&p, 0).as_slice());
                let uuid = string_of(piece(&p, 2).as_slice());
                r.push((name, uuid));
            }
            i = i + 1;
        }
        assert(views(ls@).take(i as int) =~= views(ls@));
        r
    }

    /// The VPN connections that `nmcli -t -f NAME,TYPE,UUID connection show`
    /// lists, active when the active connections name them, with the types
    /// read for them in the same order (`None` where the read failed).
    pub fn list_vpns(connections: &str, active: &str, type_outputs: &[Option<String>]) -> (r: Vec<
        VpnConnection,
    >)
        requires
            type_outputs@.len() == vpn_entries(lines(connections@)).len(),
        ensures
            r@.len() == vpn_entries(lines(connections@)).len(),
            forall|k: int|
                0 <= k < r@.len() ==> {
                    let e = vpn_entries(lines(connections@))[k];
                    #[trigger] r@[k]@ == (VpnView {
                        name: e.0,
                        vpn_type: vpn_type_of(opt_v(type_outputs@[k])),
                        active: active_vpn_names(lines(active@)).contains(e.0),
                        uuid: e.1,
                    })
                },
    {
        let entries = Self::vpn_entries_exec(connections);
        let al = lines_of(chars_of(active).as_slice());
        let mut names: Vec<Vec<char>> = Vec::new();
        let mut j: usize = 0;
        assert(views(al@).take(0) =~= Seq::<Seq<char>>::empty());
        assert(views(names@) =~= Seq::<Seq<char>>::empty());
        while j < al.len()
            invariant
                j <= al@.len(),
                views(al@) == lines(active@),
                views(names@) == active_vpn_names(views(al@).take(j as int)),
            decreases al@.len() - j,
        {
            assert(views(al@).take(j + 1).drop_last() =~= views(al@).take(j as int));
            assert(views(al@)[j as int] == al@[j as int]@);
            if contains_str(al[j].as_slice(), ":vpn") {
                let p = split_on(al[j].as_slice(), ':');
                proof {
                    lemma_split_nonempty(al@[j as int]@, ':');
                }
                let first = piece(&p, 0);
                let ghost before = names@;
                names.push(first);
                assert(views(names@) =~= views(before).push(views(p@)[0]));
            }
            j = j + 1;
        }
        assert(views(al@).take(j as int) =~= views(al@));
        let ghost act = active_vpn_names(lines(active@));
        let ghost es = vpn_entries(lines(connections@));
        let mut r: Vec<VpnConnection> = Vec::new();
        let mut i: usize = 0;
        while i < entries.len()
            invariant
                i <= entries@.len(),
                entries@.len() == es.len(),
                type_outputs@.len() == es.len(),
                views(names@) == act,
                forall|k: int|
                    0 <= k < entries@.len() ==> (#[trigger] entries@[k]).0@ == es[k].0
                        && entries@[k].1@ == es[k].1,
                r@.len() == i,
                forall|k: int|
                    0 <= k < i ==> #[trigger] r@[k]@ == (VpnView {
                        name: es[k].0,
                        vpn_type: vpn_type_of(opt_v(type_outputs@[k])),
                        active: act.contains(es[k].0),
                        uuid: es[k].1,
                    }),
            decreases entries@.len() - i,
        {
            let name = chars_of(entries[i].0.as_str());
            let mut is_active = false;
            let mut k: usize = 0;
            while k < names.len()
                invariant
                    k <= names@.len(),
                    views(names@) == act,
                    is_active == act.take(k as int).contains(name@),
                decreases names@.len() - k,
            {
                assert(act.take(k + 1) =~= act.take(k as int).push(act[k as int]));
                assert(act[k as int] == names@[k as int]@);
                proof {
                    lemma_push_contains(act.take(k as int), act[k as int], name@);
                }
                if seq_eq(names[k].as_slice(), name.as_slice()) {
                    is_active = true;
                }
                k = k + 1;
            }
            assert(act.take(k as int) =~= act);
            let vpn_type = match &type_outputs[i] {
                Some(o) => Self::get_vpn_type(Some(o.as_str())),
                None => Self::get_vpn_type(None),
            };
            let c = VpnConnection {
                name: entries[i].0.clone(),
                vpn_type,
                active: is_active,
                uuid: entries[i].1.clone(),
            };
            r.push(c);
            i = i + 1;
        }
        r
    }

    /// The WiFi device that `nmcli -t -f DEVICE,TYPE device` lists.
    pub fn wifi_device(output: &str) -> (r: Option<String>)
        ensures
            opt_v(r) == wifi_device_of(lines(output@)),
    {
        let ls = lines_of(chars_of(output).as_slice());
        let mut i: usize = 0;
        assert(views(ls@).skip(0) =~= views(ls@));
        while i < ls.len()
            invariant
                i <= ls@.len(),
                views(ls@) == lines(output@),
                wifi_device_of(lines(output@)) == wifi_device_of(views(ls@).skip(i as int)),
            decreases ls@.len() - i,
        {
            assert(views(ls@).skip(i as int)[0] == ls@[i as int]@);
            assert(views(ls@).skip(i as int).drop_first() =~= views(ls@).skip(i + 1));
            if contains_str(ls[i].as_slice(), ":wifi") {
                let p = split_on(ls[i].as_slice(), ':');
                proof {
                    lemma_split_nonempty(ls@[i as int]@, ':');
                }
                return Some(string_of(piece(&p, 0).as_slice()));
            }
            i = i + 1;
        }
        None
    }

    /// The arguments of `nmcli` that connect to a WiFi network.
    pub fn connect_wifi_args(ssid: &str, password: Option<&str>) -> (r: Vec<String>)
        ensures
            string_views(r@) == (match password {
                Some(p) => seq!["device"@, "wifi"@, "connect"@, ssid@, "password"@, p@],
                None => seq!["device"@, "wifi"@, "connect"@, ssid@],
            }),
    {
        let mut r: Vec<String> = Vec::new();
        r.push(string_from("device"));
        r.push(string_from("wifi"));
        r.push(string_from("connect"));
        r.push(string_from(ssid));
        if let Some(p) = password {
            r.push(string_from("password"));
            r.push(string_from(p));
        }
        assert(string_views(r@) =~= (match password {
            Some(p) => seq!["device"@, "wifi"@, "connect"@, ssid@, "password"@, p@],
            None => seq!["device"@, "wifi"@, "connect"@, ssid@],
        }));
        r
    }

    /// The name that an import gave a connection, and whether it has to be
    /// renamed to the name asked for: from what `nmcli connection import`
    /// printed, the config file's stem and the default name.
    pub fn import_outcome(
        stdout: &str,
        file_stem: Option<&str>,
        default_name: &str,
        requested: Option<&str>,
    ) -> (r: ImportOutcome)
        ensures
            ({
                let imported = imported_name_of(
                    stdout@,
                    match file_stem {
                        Some(s) => Some(s@),
                        None => None,
                    },
                    default_name@,
                );
                match requested {
                    Some(n) => if n@ != imported {
                        r.name@ == n@ && opt_v(r.rename_from) == Some(imported)
                    } else {
                        r.name@ == imported && r.rename_from is None
                    },
                    None => r.name@ == imported && r.rename_from is None,
                }
            }),
    {
        let p = split_on(chars_of(stdout).as_slice(), '\'');
        let imported = if p.len() > 1 {
            piece(&p, 1)
        } else {
            match file_stem {
                Some(s) => chars_of(s),
                None => chars_of(default_name),
            }
        };
        match requested {
            Some(n) => {
                let nc = chars_of(n);
                if !seq_eq(nc.as_slice(), imported.as_slice()) {
                    ImportOutcome {
                        name: string_from(n),
                        rename_from: Some(string_of(imported.as_slice())),
                    }
                } else {
                    ImportOutcome { name: string_of(imported.as_slice()), rename_from: None }
                }
            },
            None => ImportOutcome { name: string_of(imported.as_slice()), rename_from: None },
        }
    }
}

} // verus!
