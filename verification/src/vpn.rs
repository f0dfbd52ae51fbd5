//! VPN monitoring: interface classification, routing-table analysis with
//! split-tunnel detection, WireGuard peers, VPN connections and the
//! traffic that goes through the tunnel or around it.
//!
//! Each function here reads the text that a system tool prints or a file
//! under `/proc` or `/sys` holds; running the tools and reading the files is
//! left to the caller.
use vstd::prelude::*;
use std::collections::HashMap;
use crate::connections::IpAddress;
use crate::order::{lemma_text_order, sort_by_key, stable_sort, text_lt, text_lt_exec, views_of, SortKey};
use crate::text::{
    chars_of, contains, contains_str, contains_string, copy_of, eq_str, lines, lines_of,
    parse_uint, parse_unsigned, split, split_on, split_ws, string_of, string_views, views,
    words, opt_chars, seq_eq, trim_char_end, slice_of, starts_with, starts_with_str, trim, trimmed, find_char, find_char_exec, lemma_split_at_sep, is_first,
};

verus! {

// Interface Classification

#[derive(Debug, Clone, Copy, PartialEq, Eq, Structural)]
pub enum InterfaceType {
    Physical,
    WireGuard,
    OpenVPN,
    PPP,
    Bridge,
    Virtual,
    Loopback,
    Unknown,
}

// Routing

#[derive(Debug, Clone, Copy, PartialEq, Eq, Structural)]
pub enum RouteScope {
    Universe,
    Link,
    Host,
    Nowhere,
    Unknown,
}

#[derive(Debug, Clone, Copy, PartialEq, Eq, Structural)]
pub enum RouteProtocol {
    Kernel,
    Boot,
    Static,
    Dhcp,
    Unknown,
}

#[derive(Debug)]
pub struct Route {
    pub destination: String,
    pub gateway: Option<String>,
    pub interface: String,
    pub metric: u32,
    pub scope: RouteScope,
    pub protocol: RouteProtocol,
    pub is_default: bool,
    pub is_vpn_route: bool,
}

/// What a route holds.
pub struct RouteView {
    pub destination: Seq<char>,
    pub gateway: Option<Seq<char>>,
    pub interface: Seq<char>,
    pub metric: u32,
    pub scope: RouteScope,
    pub protocol: RouteProtocol,
    pub is_default: bool,
    pub is_vpn_route: bool,
}

/// The view of an optional string.
pub open spec fn opt_str(o: Option<String>) -> Option<Seq<char>> {
    match o {
        Some(s) => Some(s@),
        None => None,
    }
}

impl View for Route {
    type V = RouteView;

    open spec fn view(&self) -> RouteView {
        RouteView {
            destination: self.destination@,
            gateway: opt_str(self.gateway),
            interface: self.interface@,
            metric: self.metric,
            scope: self.scope,
            protocol: self.protocol,
            is_default: self.is_default,
            is_vpn_route: self.is_vpn_route,
        }
    }
}

/// The views of a sequence of routes.
pub open spec fn route_views(v: Seq<Route>) -> Seq<RouteView> {
    v.map_values(|r: Route| r@)
}

fn copy_opt_string(o: &Option<String>) -> (r: Option<String>)
    ensures
        opt_str(r) == opt_str(*o),
{
    match o {
        Some(s) => Some(s.clone()),
        None => None,
    }
}

impl Route {
    /// A copy of this route.
    pub fn duplicate(&self) -> (r: Self)
        ensures
            r@ == self@,
    {
        Route {
            destination: self.destination.clone(),
            gateway: copy_opt_string(&self.gateway),
            interface: self.interface.clone(),
            metric: self.metric,
            scope: self.scope,
            protocol: self.protocol,
            is_default: self.is_default,
            is_vpn_route: self.is_vpn_route,
        }
    }
}

#[derive(Debug)]
pub struct RoutingTable {
    pub default_interface: Option<String>,
    pub default_via_vpn: bool,
    pub routes: Vec<Route>,
    pub vpn_routes: Vec<Route>,
    pub split_tunnel_detected: bool,
    pub split_tunnel_subnets: Vec<String>,
}

/// What a routing table holds.
pub struct RoutingTableView {
    pub default_interface: Option<Seq<char>>,
    pub default_via_vpn: bool,
    pub routes: Seq<RouteView>,
    pub vpn_routes: Seq<RouteView>,
    pub split_tunnel_detected: bool,
    pub split_tunnel_subnets: Seq<Seq<char>>,
}

impl View for RoutingTable {
    type V = RoutingTableView;

    open spec fn view(&self) -> RoutingTableView {
        RoutingTableView {
            default_interface: opt_str(self.default_interface),
            default_via_vpn: self.default_via_vpn,
            routes: route_views(self.routes@),
            vpn_routes: route_views(self.vpn_routes@),
            split_tunnel_detected: self.split_tunnel_detected,
            split_tunnel_subnets: string_views(self.split_tunnel_subnets@),
        }
    }
}

/// The fields of a route that its keywords set.
pub struct RouteFields {
    pub gateway: Option<Seq<char>>,
    pub interface: Seq<char>,
    pub metric: u32,
    pub scope: RouteScope,
    pub protocol: RouteProtocol,
}

/// The scope that the word after `scope` names.
pub open spec fn scope_named(w: Option<Seq<char>>) -> RouteScope {
    match w {
        Some(n) => if n == "link"@ {
            RouteScope::Link
        } else if n == "host"@ {
            RouteScope::Host
        } else if n == "nowhere"@ {
            RouteScope::Nowhere
        } else {
            RouteScope::Universe
        },
        None => RouteScope::Universe,
    }
}

/// The protocol that the word after `proto` names.
pub open spec fn protocol_named(w: Option<Seq<char>>) -> RouteProtocol {
    match w {
        Some(n) => if n == "kernel"@ {
            RouteProtocol::Kernel
        } else if n == "boot"@ {
            RouteProtocol::Boot
        } else if n == "static"@ {
            RouteProtocol::Static
        } else if n == "dhcp"@ {
            RouteProtocol::Dhcp
        } else {
            RouteProtocol::Unknown
        },
        None => RouteProtocol::Unknown,
    }
}

/// The value of a `metric` word, 0 when absent or not a `u32`.
pub open spec fn metric_named(w: Option<Seq<char>>) -> u32 {
    match w {
        Some(n) => match parse_unsigned(n, 10, u32::MAX as nat) {
            Some(v) => v as u32,
            None => 0,
        },
        None => 0,
    }
}

/// The word at `i`, if there is one.
pub open spec fn word_at(w: Seq<Seq<char>>, i: int) -> Option<Seq<char>> {
    if 0 <= i < w.len() {
        Some(w[i])
    } else {
        None
    }
}

/// The route fields after reading the words of a route from position `i`:
/// each of `via`, `dev`, `metric`, `scope` and `proto` takes the word after
/// it; any other word is skipped.
pub open spec fn route_fields(w: Seq<Seq<char>>, i: int, f: RouteFields) -> RouteFields
    decreases w.len() + 1 - i,
{
    if i < 0 || i >= w.len() {
        f
    } else {
        let k = w[i];
        let next = word_at(w, i + 1);
        if k == "via"@ {
            route_fields(w, i + 2, RouteFields { gateway: next, ..f })
        } else if k == "dev"@ {
            route_fields(
                w,
                i + 2,
                RouteFields {
                    interface: match next {
                        Some(n) => n,
                        None => Seq::<char>::empty(),
                    },
                    ..f
                },
            )
        } else if k == "metric"@ {
            route_fields(w, i + 2, RouteFields { metric: metric_named(next), ..f })
        } else if k == "scope"@ {
            route_fields(w, i + 2, RouteFields { scope: scope_named(next), ..f })
        } else if k == "proto"@ {
            route_fields(w, i + 2, RouteFields { protocol: protocol_named(next), ..f })
        } else {
            route_fields(w, i + 1, f)
        }
    }
}

/// The fields before any keyword is read.
pub open spec fn no_route_fields() -> RouteFields {
    RouteFields {
        gateway: None,
        interface: Seq::<char>::empty(),
        metric: 0,
        scope: RouteScope::Universe,
        protocol: RouteProtocol::Unknown,
    }
}

/// The route that a line of `ip route show` describes: the destination
/// first, then keyword/value pairs. A line without a device describes none.
pub open spec fn route_of_line(line: Seq<char>, vpn: Seq<Seq<char>>) -> Option<RouteView> {
    let w = words(line);
    if w.len() == 0 {
        None
    } else {
        let f = route_fields(w, 1, no_route_fields());
        if f.interface.len() == 0 {
            None
        } else {
            Some(
                RouteView {
                    destination: w[0],
                    gateway: f.gateway,
                    interface: f.interface,
                    metric: f.metric,
                    scope: f.scope,
                    protocol: f.protocol,
                    is_default: w[0] == "default"@ || w[0] == "::/0"@,
                    is_vpn_route: vpn.contains(f.interface),
                },
            )
        }
    }
}

/// The routes that the lines `ls` describe, in order.
pub open spec fn routes_of(ls: Seq<Seq<char>>, vpn: Seq<Seq<char>>) -> Seq<RouteView>
    decreases ls.len(),
{
    if ls.len() == 0 {
        Seq::<RouteView>::empty()
    } else {
        let prev = routes_of(ls.drop_last(), vpn);
        match route_of_line(ls.last(), vpn) {
            Some(r) => prev.push(r),
            None => prev,
        }
    }
}

/// The first default route of `rs`.
pub open spec fn first_default(rs: Seq<RouteView>) -> Option<RouteView>
    decreases rs.len(),
{
    if rs.len() == 0 {
        None
    } else {
        match first_default(rs.drop_last()) {
            Some(r) => Some(r),
            None => if rs.last().is_default {
                Some(rs.last())
            } else {
                None
            },
        }
    }
}

/// The routes of `rs` through a VPN interface, in order.
pub open spec fn vpn_routes_of(rs: Seq<RouteView>) -> Seq<RouteView>
    decreases rs.len(),
{
    if rs.len() == 0 {
        rs
    } else if rs.last().is_vpn_route {
        vpn_routes_of(rs.drop_last()).push(rs.last())
    } else {
        vpn_routes_of(rs.drop_last())
    }
}

/// The destinations of the VPN routes of `rs` that are not default routes
/// and reach beyond the link, in order.
pub open spec fn vpn_specific(rs: Seq<RouteView>) -> Seq<Seq<char>>
    decreases rs.len(),
{
    if rs.len() == 0 {
        Seq::<Seq<char>>::empty()
    } else {
        let r = rs.last();
        if r.is_vpn_route && !r.is_default && r.scope == RouteScope::Universe {
            vpn_specific(rs.drop_last()).push(r.destination)
        } else {
            vpn_specific(rs.drop_last())
        }
    }
}

/// Whether traffic is split between the tunnel and the direct path: the
/// VPN carries specific routes but not the default one, or both the VPN and
/// another interface carry a default route. With it, the subnets that go
/// through the VPN.
pub open spec fn split_tunnel(rs: Seq<RouteView>, vpn: Seq<Seq<char>>) -> (bool, Seq<Seq<char>>) {
    if vpn.len() == 0 {
        (false, Seq::<Seq<char>>::empty())
    } else {
        let has_vpn_default = exists|i: int|
            0 <= i < rs.len() && #[trigger] rs[i].is_default && rs[i].is_vpn_route;
        let has_other_default = exists|i: int|
            0 <= i < rs.len() && #[trigger] rs[i].is_default && !rs[i].is_vpn_route;
        let specific = vpn_specific(rs);
        (
            (!has_vpn_default && specific.len() > 0) || (has_vpn_default && has_other_default),
            specific,
        )
    }
}

/// The routing table that the IPv4 and IPv6 outputs of `ip route show
/// table all` describe. The default interface is that of the first IPv4
/// default route.
pub open spec fn routing_table_of(v4: Seq<char>, v6: Seq<char>, vpn: Seq<Seq<char>>) -> RoutingTableView {
    let r4 = routes_of(lines(v4), vpn);
    let routes = r4 + routes_of(lines(v6), vpn);
    let split = split_tunnel(routes, vpn);
    RoutingTableView {
        default_interface: match first_default(r4) {
            Some(r) => Some(r.interface),
            None => None,
        },
        default_via_vpn: match first_default(r4) {
            Some(r) => r.is_vpn_route,
            None => false,
        },
        routes,
        vpn_routes: vpn_routes_of(routes),
        split_tunnel_detected: split.0,
        split_tunnel_subnets: split.1,
    }
}

/// The word after position `i`, copied.
fn word_after(w: &Vec<Vec<char>>, i: usize) -> (r: Option<Vec<char>>)
    requires
        i < w@.len(),
    ensures
        match word_at(views(w@), i + 1) {
            Some(n) => r matches Some(x) && x@ == n,
            None => r is None,
        },
{
    if w.len() - i > 1 {
        assert(views(w@)[i + 1] == w@[i + 1]@);
        Some(copy_of(w[i + 1].as_slice()))
    } else {
        None
    }
}

fn opt_chars_string(o: Option<Vec<char>>) -> (r: Option<String>)
    ensures
        opt_str(r) == (match o {
            Some(x) => Some(x@),
            None => None,
        }),
{
    match o {
        Some(x) => Some(string_of(x.as_slice())),
        None => None,
    }
}

/// The VPN backend keeps the interface counters of its last reading.
pub struct VpnBackend {
    pub(crate) prev_stats: Option<Vec<InterfaceCounters>>,
    /// The process, and its name, that owns each socket inode.
    pub(crate) inode_to_pid: HashMap<u64, (u32, String)>,
}

/// The traffic counters of an interface at one reading.
#[derive(Debug)]
pub struct InterfaceCounters {
    pub name: String,
    pub rx_bytes: u64,
    pub tx_bytes: u64,
}

impl Default for VpnBackend {
    fn default() -> (r: Self)
        ensures
            r.previous_counters() is None,
            r.socket_owners() == Map::<u64, (u32, Seq<char>)>::empty(),
    {
        Self::new()
    }
}

impl VpnBackend {
    pub fn new() -> (r: Self)
        ensures
            r.previous_counters() is None,
            r.socket_owners() == Map::<u64, (u32, Seq<char>)>::empty(),
    {
        let r = VpnBackend { prev_stats: None, inode_to_pid: HashMap::new() };
        assert(r.socket_owners() =~= Map::<u64, (u32, Seq<char>)>::empty());
        r
    }

    /// The owner of each socket: its process and the process's name.
    pub closed spec fn socket_owners(&self) -> Map<u64, (u32, Seq<char>)> {
        self.inode_to_pid@.map_values(|v: (u32, String)| (v.0, v.1@))
    }

    /// The owner of a socket, if it is known.
    pub(crate) fn socket_owner(&self, inode: u64) -> (r: Option<(u32, String)>)
        ensures
            match r {
                Some(v) => self.socket_owners().contains_key(inode) && (v.0, v.1@)
                    == self.socket_owners()[inode],
                None => !self.socket_owners().contains_key(inode),
            },
    {
        broadcast use vstd::std_specs::hash::group_hash_axioms;

        match self.inode_to_pid.get(&inode) {
            Some(v) => Some((v.0, v.1.clone())),
            None => None,
        }
    }

    /// Replaces the map of socket owners.
    pub(crate) fn set_socket_owners(&mut self, m: HashMap<u64, (u32, String)>)
        ensures
            final(self).socket_owners() == m@.map_values(|v: (u32, String)| (v.0, v.1@)),
            final(self).previous_counters() == old(self).previous_counters(),
    {
        self.inode_to_pid = m;
    }

    /// The counters of the last reading, if there was one.
    pub closed spec fn previous_counters(&self) -> Option<Seq<(Seq<char>, u64, u64)>> {
        match self.prev_stats {
            Some(v) => Some(counter_views(v@)),
            None => None,
        }
    }

    /// The route that a line of `ip route show` describes, if it names a
    /// device.
    pub fn parse_route_line(&self, line: &str, vpn_interfaces: &[String]) -> (r: Option<Route>)
        ensures
            match route_of_line(line@, string_views(vpn_interfaces@)) {
                Some(v) => r matches Some(x) && x@ == v,
                None => r is None,
            },
    {
        route_from_line(chars_of(line).as_slice(), vpn_interfaces)
    }
}

/// The views of a sequence of counters.
pub open spec fn counter_views(v: Seq<InterfaceCounters>) -> Seq<(Seq<char>, u64, u64)> {
    v.map_values(|c: InterfaceCounters| (c.name@, c.rx_bytes, c.tx_bytes))
}

fn route_from_line(line: &[char], vpn_interfaces: &[String]) -> (r: Option<Route>)
    ensures
        match route_of_line(line@, string_views(vpn_interfaces@)) {
            Some(v) => r matches Some(x) && x@ == v,
            None => r is None,
        },
{
    let w = split_ws(line);
    if w.len() == 0 {
        return None;
    }
    let ghost ws = words(line@);
    let mut gateway: Option<Vec<char>> = None;
    let mut interface: Vec<char> = Vec::new();
    let mut metric: u32 = 0;
    let mut scope = RouteScope::Universe;
    let mut protocol = RouteProtocol::Unknown;
    let mut i: usize = 1;
    while i < w.len()
        invariant
            1 <= i <= w@.len(),
            views(w@) == ws,
            route_fields(ws, 1, no_route_fields()) == route_fields(
                ws,
                i as int,
                RouteFields {
                    gateway: opt_chars(gateway),
                    interface: interface@,
                    metric,
                    scope,
                    protocol,
                },
            ),
        decreases w@.len() - i,
    {
        assert(views(w@)[i as int] == w@[i as int]@);
        let ghost f0 = RouteFields {
            gateway: opt_chars(gateway),
            interface: interface@,
            metric,
            scope,
            protocol,
        };
        let k = w[i].as_slice();
        let step: usize = if eq_str(k, "via") {
            gateway = word_after(&w, i);
            2
        } else if eq_str(k, "dev") {
            interface = match word_after(&w, i) {
                Some(x) => x,
                None => Vec::new(),
            };
            2
        } else if eq_str(k, "metric") {
            metric = match word_after(&w, i) {
                Some(x) => match parse_uint(x.as_slice(), 10, 0xffff_ffff) {
                    Some(v) => v as u32,
                    None => 0,
                },
                None => 0,
            };
            2
        } else if eq_str(k, "scope") {
            let next = word_after(&w, i);
            scope = match next {
                Some(x) => if eq_str(x.as_slice(), "link") {
                    RouteScope::Link
                } else if eq_str(x.as_slice(), "host") {
                    RouteScope::Host
                } else if eq_str(x.as_slice(), "nowhere") {
                    RouteScope::Nowhere
                } else {
                    RouteScope::Universe
                },
                None => RouteScope::Universe,
            };
            2
        } else if eq_str(k, "proto") {
            let next = word_after(&w, i);
            protocol = match next {
                Some(x) => if eq_str(x.as_slice(), "kernel") {
                    RouteProtocol::Kernel
                } else if eq_str(x.as_slice(), "boot") {
                    RouteProtocol::Boot
                } else if eq_str(x.as_slice(), "static") {
                    RouteProtocol::Static
                } else if eq_str(x.as_slice(), "dhcp") {
                    RouteProtocol::Dhcp
                } else {
                    RouteProtocol::Unknown
                },
                None => RouteProtocol::Unknown,
            };
            2
        } else {
            1
        };
        let ghost f1 = RouteFields {
            gateway: opt_chars(gateway),
            interface: interface@,
            metric,
            scope,
            protocol,
        };
        assert(route_fields(ws, i as int, f0) == route_fields(ws, i + step, f1));
        let ghost prev_i = i;
        i = if step <= w.len() - i {
            i + step
        } else {
            w.len()
        };
        assert(route_fields(ws, i as int, f1) == route_fields(ws, prev_i + step, f1));
    }
    if interface.len() == 0 {
        return None;
    }
    assert(views(w@)[0] == w@[0]@);
    let destination = w[0].as_slice();
    let is_default = eq_str(destination, "default") || eq_str(destination, "::/0");
    let is_vpn_route = contains_string(vpn_interfaces, interface.as_slice());
    Some(
        Route {
            destination: string_of(destination),
            gateway: opt_chars_string(gateway),
            interface: string_of(interface.as_slice()),
            metric,
            scope,
            protocol,
            is_default,
            is_vpn_route,
        },
    )
}

/// Appends the routes that the lines of `text` describe.
fn append_routes(routes: &mut Vec<Route>, text: &str, vpn_interfaces: &[String])
    ensures
        route_views(final(routes)@) == route_views(old(routes)@) + routes_of(
            lines(text@),
            string_views(vpn_interfaces@),
        ),
{
    let ls = lines_of(chars_of(text).as_slice());
    let ghost vpn = string_views(vpn_interfaces@);
    let ghost start = route_views(routes@);
    let mut i: usize = 0;
    assert(views(ls@).take(0) =~= Seq::<Seq<char>>::empty());
    assert(start + routes_of(Seq::<Seq<char>>::empty(), vpn) =~= start);
    while i < ls.len()
        invariant
            i <= ls@.len(),
            views(ls@) == lines(text@),
            route_views(routes@) == start + routes_of(views(ls@).take(i as int), vpn),
            vpn == string_views(vpn_interfaces@),
        decreases ls@.len() - i,
    {
        assert(views(ls@).take(i + 1).drop_last() =~= views(ls@).take(i as int));
        assert(views(ls@)[i as int] == ls@[i as int]@);
        let ghost before = routes@;
        match route_from_line(ls[i].as_slice(), vpn_interfaces) {
            Some(route) => {
                routes.push(route);
                assert(route_views(routes@) =~= route_views(before).push(route@));
                assert(route_views(routes@) =~= start + routes_of(
                    views(ls@).take(i + 1),
                    vpn,
                ));
            },
            None => {},
        }
        i = i + 1;
    }
    assert(views(ls@).take(i as int) =~= views(ls@));
}

impl VpnBackend {
    /// Whether the routes split traffic between the tunnel and the direct
    /// path, and the subnets that go through the VPN.
    pub fn detect_split_tunnel(&self, routes: &[Route], vpn_interfaces: &[String]) -> (r: (
        bool,
        Vec<String>,
    ))
        ensures
            (r.0, string_views(r.1@)) == split_tunnel(
                route_views(routes@),
                string_views(vpn_interfaces@),
            ),
    {
        if vpn_interfaces.len() == 0 {
            let none: Vec<String> = Vec::new();
            assert(string_views(none@) =~= Seq::<Seq<char>>::empty());
            return (false, none);
        }
        let ghost rv = route_views(routes@);
        let mut has_vpn_default = false;
        let mut has_other_default = false;
        let mut specific: Vec<String> = Vec::new();
        let mut i: usize = 0;
        assert(rv.take(0) =~= Seq::<RouteView>::empty());
        assert(string_views(specific@) =~= Seq::<Seq<char>>::empty());
        while i < routes.len()
            invariant
                i <= routes@.len(),
                rv == route_views(routes@),
                has_vpn_default == exists|j: int|
                    0 <= j < i && #[trigger] rv[j].is_default && rv[j].is_vpn_route,
                has_other_default == exists|j: int|
                    0 <= j < i && #[trigger] rv[j].is_default && !rv[j].is_vpn_route,
                string_views(specific@) == vpn_specific(rv.take(i as int)),
            decreases routes@.len() - i,
        {
            assert(rv.take(i + 1).drop_last() =~= rv.take(i as int));
            assert(rv[i as int] == routes@[i as int]@);
            let r = &routes[i];
            assert(rv[i as int].is_default == r.is_default);
            assert(rv[i as int].is_vpn_route == r.is_vpn_route);
            if r.is_default && r.is_vpn_route {
                has_vpn_default = true;
            }
            if r.is_default && !r.is_vpn_route {
                has_other_default = true;
            }
            if r.is_vpn_route && !r.is_default && r.scope == RouteScope::Universe {
                let ghost before = specific@;
                specific.push(r.destination.clone());
                assert(string_views(specific@) =~= string_views(before).push(rv[i as int].destination));
            }
            i = i + 1;
        }
        assert(rv.take(i as int) =~= rv);
        let detected = (!has_vpn_default && specific.len() > 0) || (has_vpn_default
            && has_other_default);
        (detected, specific)
    }

    /// The routing table that the IPv4 and IPv6 outputs of `ip route show
    /// table all` describe.
    pub fn get_routing_table(&self, ipv4_routes: &str, ipv6_routes: &str, vpn_interfaces: &[String]) -> (r:
        RoutingTable)
        ensures
            r@ == routing_table_of(ipv4_routes@, ipv6_routes@, string_views(vpn_interfaces@)),
    {
        let ghost vpn = string_views(vpn_interfaces@);
        let mut routes: Vec<Route> = Vec::new();
        assert(route_views(routes@) =~= Seq::<RouteView>::empty());
        append_routes(&mut routes, ipv4_routes, vpn_interfaces);
        let ghost r4 = route_views(routes@);
        assert(r4 =~= routes_of(lines(ipv4_routes@), vpn));
        let mut default_interface: Option<String> = None;
        let mut default_via_vpn = false;
        let mut i: usize = 0;
        assert(r4.take(0) =~= Seq::<RouteView>::empty());
        while i < routes.len()
            invariant
                i <= routes@.len(),
                r4 == route_views(routes@),
                match first_default(r4.take(i as int)) {
                    Some(d) => opt_str(default_interface) == Some(d.interface) && default_via_vpn
                        == d.is_vpn_route,
                    None => default_interface is None && !default_via_vpn,
                },
            decreases routes@.len() - i,
        {
            assert(r4.take(i + 1).drop_last() =~= r4.take(i as int));
            assert(r4.take(i + 1).last() == routes@[i as int]@);
            if routes[i].is_default && default_interface.is_none() {
                default_interface = Some(routes[i].interface.clone());
                default_via_vpn = routes[i].is_vpn_route;
            }
            i = i + 1;
        }
        assert(r4.take(i as int) =~= r4);
        append_routes(&mut routes, ipv6_routes, vpn_interfaces);
        let mut vpn_routes: Vec<Route> = Vec::new();
        let ghost rv = route_views(routes@);
        let mut j: usize = 0;
        assert(rv.take(0) =~= Seq::<RouteView>::empty());
        assert(route_views(vpn_routes@) =~= Seq::<RouteView>::empty());
        while j < routes.len()
            invariant
                j <= routes@.len(),
                rv == route_views(routes@),
                route_views(vpn_routes@) == vpn_routes_of(rv.take(j as int)),
            decreases routes@.len() - j,
        {
            assert(rv.take(j + 1).drop_last() =~= rv.take(j as int));
            assert(rv[j as int] == routes@[j as int]@);
            if routes[j].is_vpn_route {
                let ghost before = vpn_routes@;
                let copy = routes[j].duplicate();
                vpn_routes.push(copy);
                assert(route_views(vpn_routes@) =~= route_views(before).push(rv[j as int]));
            }
            j = j + 1;
        }
        assert(rv.take(j as int) =~= rv);
        let (split_tunnel_detected, split_tunnel_subnets) = self.detect_split_tunnel(
            routes.as_slice(),
            vpn_interfaces,
        );
        RoutingTable {
            default_interface,
            default_via_vpn,
            routes,
            vpn_routes,
            split_tunnel_detected,
            split_tunnel_subnets,
        }
    }
}

// WireGuard

#[derive(Debug)]
pub struct WireGuardInterface {
    pub name: String,
    pub public_key: String,
    pub listen_port: Option<u16>,
    pub fwmark: Option<u32>,
    pub peers: Vec<WireGuardPeer>,
}

#[derive(Debug)]
pub struct WireGuardPeer {
    pub public_key: String,
    pub endpoint: Option<String>,
    pub allowed_ips: Vec<String>,
    pub latest_handshake: Option<u64>,
    pub rx_bytes: u64,
    pub tx_bytes: u64,
    pub persistent_keepalive: Option<u16>,
}

/// What a WireGuard peer holds.
pub struct PeerView {
    pub public_key: Seq<char>,
    pub endpoint: Option<Seq<char>>,
    pub allowed_ips: Seq<Seq<char>>,
    pub latest_handshake: Option<u64>,
    pub rx_bytes: u64,
    pub tx_bytes: u64,
    pub persistent_keepalive: Option<u16>,
}

/// What a WireGuard interface holds.
pub struct WgInterfaceView {
    pub name: Seq<char>,
    pub public_key: Seq<char>,
    pub listen_port: Option<u16>,
    pub fwmark: Option<u32>,
    pub peers: Seq<PeerView>,
}

impl View for WireGuardPeer {
    type V = PeerView;

    open spec fn view(&self) -> PeerView {
        PeerView {
            public_key: self.public_key@,
            endpoint: opt_str(self.endpoint),
            allowed_ips: string_views(self.allowed_ips@),
            latest_handshake: self.latest_handshake,
            rx_bytes: self.rx_bytes,
            tx_bytes: self.tx_bytes,
            persistent_keepalive: self.persistent_keepalive,
        }
    }
}

/// The views of a sequence of peers.
pub open spec fn peer_views(v: Seq<WireGuardPeer>) -> Seq<PeerView> {
    v.map_values(|p: WireGuardPeer| p@)
}

impl View for WireGuardInterface {
    type V = WgInterfaceView;

    open spec fn view(&self) -> WgInterfaceView {
        WgInterfaceView {
            name: self.name@,
            public_key: self.public_key@,
            listen_port: self.listen_port,
            fwmark: self.fwmark,
            peers: peer_views(self.peers@),
        }
    }
}

/// The views of a sequence of WireGuard interfaces.
pub open spec fn wg_views(v: Seq<WireGuardInterface>) -> Seq<WgInterfaceView> {
    v.map_values(|w: WireGuardInterface| w@)
}

/// The decimal value of an optional field, when it parses and is at most
/// `max`.
pub open spec fn field_value(w: Option<Seq<char>>, max: nat) -> Option<nat> {
    match w {
        Some(n) => parse_unsigned(n, 10, max),
        None => None,
    }
}

/// A field that is `off` or a decimal value at most `max`.
pub open spec fn off_or_value(w: Option<Seq<char>>, max: nat) -> Option<nat> {
    match w {
        Some(n) => if n == "off"@ {
            None
        } else {
            parse_unsigned(n, 10, max)
        },
        None => None,
    }
}

/// An optional value as a `u16`.
pub open spec fn as_u16(o: Option<nat>) -> Option<u16> {
    match o {
        Some(v) => Some(v as u16),
        None => None,
    }
}

/// An optional value as a `u32`.
pub open spec fn as_u32(o: Option<nat>) -> Option<u32> {
    match o {
        Some(v) => Some(v as u32),
        None => None,
    }
}

/// The interface that a line of `wg show all dump` with four or five
/// fields describes: name, private key, public key, port, firewall mark.
pub open spec fn wg_interface_of(parts: Seq<Seq<char>>) -> WgInterfaceView {
    WgInterfaceView {
        name: parts[0],
        public_key: parts[2],
        listen_port: as_u16(field_value(word_at(parts, 3), u16::MAX as nat)),
        fwmark: as_u32(off_or_value(word_at(parts, 4), u32::MAX as nat)),
        peers: Seq::<PeerView>::empty(),
    }
}

/// The peer that a line of `wg show all dump` with eight or more fields
/// describes.
pub open spec fn wg_peer_of(parts: Seq<Seq<char>>) -> PeerView {
    PeerView {
        public_key: parts[1],
        endpoint: if parts[3] == "(none)"@ {
            None
        } else {
            Some(parts[3])
        },
        allowed_ips: split(parts[4], ','),
        latest_handshake: match field_value(word_at(parts, 5), u64::MAX as nat) {
            Some(t) => if t > 0 {
                Some(t as u64)
            } else {
                None
            },
            None => None,
        },
        rx_bytes: match field_value(word_at(parts, 6), u64::MAX as nat) {
            Some(v) => v as u64,
            None => 0,
        },
        tx_bytes: match field_value(word_at(parts, 7), u64::MAX as nat) {
            Some(v) => v as u64,
            None => 0,
        },
        persistent_keepalive: as_u16(off_or_value(word_at(parts, 8), u16::MAX as nat)),
    }
}

/// The interfaces done and the one being read.
pub struct WgScan {
    pub done: Seq<WgInterfaceView>,
    pub current: Option<WgInterfaceView>,
}

/// The scan after one more line of the dump.
pub open spec fn wg_scan_line(st: WgScan, line: Seq<char>) -> WgScan {
    let parts = split(line, '\t');
    if 4 <= parts.len() <= 5 {
        WgScan {
            done: match st.current {
                Some(c) => st.done.push(c),
                None => st.done,
            },
            current: Some(wg_interface_of(parts)),
        }
    } else if parts.len() >= 8 {
        match st.current {
            Some(c) => WgScan {
                done: st.done,
                current: Some(WgInterfaceView { peers: c.peers.push(wg_peer_of(parts)), ..c }),
            },
            None => st,
        }
    } else {
        st
    }
}

/// The scan after the lines `ls`.
pub open spec fn wg_scan(ls: Seq<Seq<char>>) -> WgScan
    decreases ls.len(),
{
    if ls.len() == 0 {
        WgScan { done: Seq::<WgInterfaceView>::empty(), current: None }
    } else {
        wg_scan_line(wg_scan(ls.drop_last()), ls.last())
    }
}

/// The WireGuard interfaces, with their peers, that the output of
/// `wg show all dump` describes.
pub open spec fn wireguard_of(dump: Seq<char>) -> Seq<WgInterfaceView> {
    let st = wg_scan(lines(dump));
    match st.current {
        Some(c) => st.done.push(c),
        None => st.done,
    }
}

/// The view of an optional WireGuard interface.
pub open spec fn opt_wg(o: Option<WireGuardInterface>) -> Option<WgInterfaceView> {
    match o {
        Some(w) => Some(w@),
        None => None,
    }
}

/// The decimal value of the field at `i`, if there is one and it parses.
fn field_at(parts: &Vec<Vec<char>>, i: usize, max: u64) -> (r: Option<u64>)
    ensures
        match field_value(word_at(views(parts@), i as int), max as nat) {
            Some(v) => r == Some(v as u64),
            None => r is None,
        },
{
    if i < parts.len() {
        assert(views(parts@)[i as int] == parts@[i as int]@);
        parse_uint(parts[i].as_slice(), 10, max)
    } else {
        None
    }
}

/// The field at `i` when it is a decimal value, `off` giving none.
fn off_or_field(parts: &Vec<Vec<char>>, i: usize, max: u64) -> (r: Option<u64>)
    ensures
        match off_or_value(word_at(views(parts@), i as int), max as nat) {
            Some(v) => r == Some(v as u64),
            None => r is None,
        },
{
    if i < parts.len() {
        assert(views(parts@)[i as int] == parts@[i as int]@);
        if eq_str(parts[i].as_slice(), "off") {
            None
        } else {
            parse_uint(parts[i].as_slice(), 10, max)
        }
    } else {
        None
    }
}

fn strings_of(v: &Vec<Vec<char>>) -> (r: Vec<String>)
    ensures
        string_views(r@) == views(v@),
{
    let mut r: Vec<String> = Vec::new();
    let mut i: usize = 0;
    while i < v.len()
        invariant
            i <= v@.len(),
            string_views(r@) == views(v@).take(i as int),
        decreases v@.len() - i,
    {
        let ghost before = r@;
        let t = string_of(v[i].as_slice());
        assert(views(v@)[i as int] == v@[i as int]@);
        r.push(t);
        assert(string_views(r@) =~= string_views(before).push(t@));
        assert(string_views(r@) =~= views(v@).take(i + 1));
        i = i + 1;
    }
    assert(views(v@).take(i as int) =~= views(v@));
    r
}

fn wg_interface_from(parts: &Vec<Vec<char>>) -> (r: WireGuardInterface)
    requires
        parts@.len() >= 4,
    ensures
        r@ == wg_interface_of(views(parts@)),
{
    assert(views(parts@)[0] == parts@[0]@);
    assert(views(parts@)[2] == parts@[2]@);
    let listen_port = match field_at(parts, 3, 0xffff) {
        Some(v) => Some(v as u16),
        None => None,
    };
    let fwmark = match off_or_field(parts, 4, 0xffff_ffff) {
        Some(v) => Some(v as u32),
        None => None,
    };
    let r = WireGuardInterface {
        name: string_of(parts[0].as_slice()),
        public_key: string_of(parts[2].as_slice()),
        listen_port,
        fwmark,
        peers: Vec::new(),
    };
    assert(peer_views(r.peers@) =~= Seq::<PeerView>::empty());
    r
}

fn wg_peer_from(parts: &Vec<Vec<char>>) -> (r: WireGuardPeer)
    requires
        parts@.len() >= 8,
    ensures
        r@ == wg_peer_of(views(parts@)),
{
    assert(views(parts@)[1] == parts@[1]@);
    assert(views(parts@)[3] == parts@[3]@);
    assert(views(parts@)[4] == parts@[4]@);
    let endpoint = if eq_str(parts[3].as_slice(), "(none)") {
        None
    } else {
        Some(string_of(parts[3].as_slice()))
    };
    let ips = split_on(parts[4].as_slice(), ',');
    let latest_handshake = match field_at(parts, 5, 0xffff_ffff_ffff_ffff) {
        Some(t) => if t > 0 {
            Some(t)
        } else {
            None
        },
        None => None,
    };
    let rx_bytes = match field_at(parts, 6, 0xffff_ffff_ffff_ffff) {
        Some(v) => v,
        None => 0,
    };
    let tx_bytes = match field_at(parts, 7, 0xffff_ffff_ffff_ffff) {
        Some(v) => v,
        None => 0,
    };
    let persistent_keepalive = match off_or_field(parts, 8, 0xffff) {
        Some(v) => Some(v as u16),
        None => None,
    };
    WireGuardPeer {
        public_key: string_of(parts[1].as_slice()),
        endpoint,
        allowed_ips: strings_of(&ips),
        latest_handshake,
        rx_bytes,
        tx_bytes,
        persistent_keepalive,
    }
}

impl VpnBackend {
    /// The WireGuard interfaces, with their peers, that the output of
    /// `wg show all dump` describes.
    pub fn get_wireguard_interfaces(&self, dump: &str) -> (r: Vec<WireGuardInterface>)
        ensures
            wg_views(r@) == wireguard_of(dump@),
    {
        let ls = lines_of(chars_of(dump).as_slice());
        let mut interfaces: Vec<WireGuardInterface> = Vec::new();
        let mut current: Option<WireGuardInterface> = None;
        let mut i: usize = 0;
        assert(lines(dump@).take(0) =~= Seq::<Seq<char>>::empty());
        assert(wg_views(interfaces@) =~= Seq::<WgInterfaceView>::empty());
        while i < ls.len()
            invariant
                i <= ls@.len(),
                views(ls@) == lines(dump@),
                wg_scan(lines(dump@).take(i as int)) == (WgScan {
                    done: wg_views(interfaces@),
                    current: opt_wg(current),
                }),
            decreases ls@.len() - i,
        {
            assert(lines(dump@).take(i + 1).drop_last() =~= lines(dump@).take(i as int));
            assert(views(ls@)[i as int] == ls@[i as int]@);
            let parts = split_on(ls[i].as_slice(), '\t');
            if 4 <= parts.len() && parts.len() <= 5 {
                let ghost before = interfaces@;
                match current {
                    Some(c) => {
                        interfaces.push(c);
                        assert(wg_views(interfaces@) =~= wg_views(before).push(c@));
                    },
                    None => {},
                }
                current = Some(wg_interface_from(&parts));
            } else if parts.len() >= 8 {
                current = match current {
                    Some(c) => {
                        let mut c = c;
                        let ghost before = c.peers@;
                        let peer = wg_peer_from(&parts);
                        c.peers.push(peer);
                        assert(peer_views(c.peers@) =~= peer_views(before).push(peer@));
                        Some(c)
                    },
                    None => None,
                };
            }
            i = i + 1;
        }
        assert(lines(dump@).take(i as int) =~= lines(dump@));
        let ghost before = interfaces@;
        match current {
            Some(c) => {
                interfaces.push(c);
                assert(wg_views(interfaces@) =~= wg_views(before).push(c@));
            },
            None => {},
        }
        interfaces
    }
}

// Interfaces

#[derive(Debug)]
pub struct NetworkInterface {
    pub name: String,
    pub iface_type: InterfaceType,
    pub is_vpn: bool,
    pub is_up: bool,
    pub mtu: u32,
    pub ipv4_addrs: Vec<String>,
    pub ipv6_addrs: Vec<String>,
    pub rx_bytes: u64,
    pub tx_bytes: u64,
    pub rx_packets: u64,
    pub tx_packets: u64,
    pub rx_errors: u64,
    pub tx_errors: u64,
    pub rx_dropped: u64,
    pub tx_dropped: u64,
}

/// What a network interface holds.
pub struct NetIfView {
    pub name: Seq<char>,
    pub iface_type: InterfaceType,
    pub is_vpn: bool,
    pub is_up: bool,
    pub mtu: u32,
    pub ipv4_addrs: Seq<Seq<char>>,
    pub ipv6_addrs: Seq<Seq<char>>,
    pub rx_bytes: u64,
    pub tx_bytes: u64,
    pub rx_packets: u64,
    pub tx_packets: u64,
    pub rx_errors: u64,
    pub tx_errors: u64,
    pub rx_dropped: u64,
    pub tx_dropped: u64,
}

impl View for NetworkInterface {
    type V = NetIfView;

    open spec fn view(&self) -> NetIfView {
        NetIfView {
            name: self.name@,
            iface_type: self.iface_type,
            is_vpn: self.is_vpn,
            is_up: self.is_up,
            mtu: self.mtu,
            ipv4_addrs: string_views(self.ipv4_addrs@),
            ipv6_addrs: string_views(self.ipv6_addrs@),
            rx_bytes: self.rx_bytes,
            tx_bytes: self.tx_bytes,
            rx_packets: self.rx_packets,
            tx_packets: self.tx_packets,
            rx_errors: self.rx_errors,
            tx_errors: self.tx_errors,
            rx_dropped: self.rx_dropped,
            tx_dropped: self.tx_dropped,
        }
    }
}

/// The views of a sequence of interfaces.
pub open spec fn iface_views(v: Seq<NetworkInterface>) -> Seq<NetIfView> {
    views_of(v)
}

impl SortKey for NetworkInterface {
    open spec fn precedes(a: NetIfView, b: NetIfView) -> bool {
        text_lt(a.name, b.name)
    }

    fn precedes_exec(&self, other: &Self) -> (r: bool) {
        let a = chars_of(self.name.as_str());
        let b = chars_of(other.name.as_str());
        text_lt_exec(a.as_slice(), b.as_slice())
    }

    proof fn lemma_strict_weak_order(a: NetIfView, b: NetIfView, c: NetIfView) {
        lemma_text_order(a.name, b.name, c.name);
    }
}

// VPN Connection State

#[derive(Debug, Clone, Copy, PartialEq, Eq, Structural)]
pub enum VpnState {
    Connected,
    Connecting,
    Disconnected,
    Failed,
    Unknown,
}

#[derive(Debug, Clone, Copy, PartialEq, Eq, Structural)]
pub enum VpnType {
    WireGuard,
    OpenVPN,
    IPSec,
    PPTP,
    L2TP,
    SSTP,
    Unknown,
}

#[derive(Debug)]
pub struct VpnConnection {
    pub name: String,
    pub vpn_type: VpnType,
    pub state: VpnState,
    pub interface: Option<String>,
    pub server: Option<String>,
    pub local_ip: Option<String>,
    pub connected_since: Option<u64>,
    pub rx_bytes: u64,
    pub tx_bytes: u64,
}

/// What a VPN connection holds.
pub struct ConnView {
    pub name: Seq<char>,
    pub vpn_type: VpnType,
    pub state: VpnState,
    pub interface: Option<Seq<char>>,
    pub server: Option<Seq<char>>,
    pub local_ip: Option<Seq<char>>,
    pub connected_since: Option<u64>,
    pub rx_bytes: u64,
    pub tx_bytes: u64,
}

impl View for VpnConnection {
    type V = ConnView;

    open spec fn view(&self) -> ConnView {
        ConnView {
            name: self.name@,
            vpn_type: self.vpn_type,
            state: self.state,
            interface: opt_str(self.interface),
            server: opt_str(self.server),
            local_ip: opt_str(self.local_ip),
            connected_since: self.connected_since,
            rx_bytes: self.rx_bytes,
            tx_bytes: self.tx_bytes,
        }
    }
}

/// The views of a sequence of connections.
pub open spec fn conn_views(v: Seq<VpnConnection>) -> Seq<ConnView> {
    v.map_values(|c: VpnConnection| c@)
}

/// The kind of VPN that a NetworkManager connection type names.
pub open spec fn vpn_type_of(t: Seq<char>) -> VpnType {
    if t == "wireguard"@ {
        VpnType::WireGuard
    } else if contains(t, "openvpn"@) {
        VpnType::OpenVPN
    } else if contains(t, "ipsec"@) || contains(t, "libreswan"@) {
        VpnType::IPSec
    } else if contains(t, "pptp"@) {
        VpnType::PPTP
    } else if contains(t, "l2tp"@) {
        VpnType::L2TP
    } else {
        VpnType::Unknown
    }
}

/// The state that a NetworkManager connection state names.
pub open spec fn vpn_state_of(s: Seq<char>) -> VpnState {
    if s == "activated"@ {
        VpnState::Connected
    } else if s == "activating"@ {
        VpnState::Connecting
    } else if s == "deactivated"@ || s == "deactivating"@ {
        VpnState::Disconnected
    } else {
        VpnState::Unknown
    }
}

/// NetworkManager's connection states: "activated" is connected,
/// "activating" is connecting, "deactivated" and "deactivating" are
/// disconnected, every other word is unknown, and no word reads as failed.
pub proof fn law_vpn_states(s: Seq<char>)
    ensures
        (vpn_state_of(s) == VpnState::Connected) <==> s == "activated"@,
        (vpn_state_of(s) == VpnState::Connecting) <==> s == "activating"@,
        (vpn_state_of(s) == VpnState::Disconnected) <==> (s == "deactivated"@ || s
            == "deactivating"@),
        vpn_state_of(s) != VpnState::Failed,
{
    reveal_strlit("activated");
    reveal_strlit("activating");
    reveal_strlit("deactivated");
    reveal_strlit("deactivating");
    assert("activated"@.len() == 9);
    assert("activating"@.len() == 10);
    assert("deactivated"@.len() == 11);
    assert("deactivating"@.len() == 12);
}

/// A VPN line of `nmcli` gives a connection named by its first field whose
/// state is read from its fourth: connected exactly when that field is
/// "activated", connecting exactly when it is "activating".
pub proof fn law_nm_connection_state(line: Seq<char>, ifs: Seq<NetIfView>)
    requires
        split(line, ':').len() >= 4,
        contains(split(line, ':')[1], "vpn"@) || split(line, ':')[1] == "wireguard"@,
    ensures
        nm_connection(line, ifs) is Some,
        nm_connection(line, ifs)->Some_0.name == split(line, ':')[0],
        (nm_connection(line, ifs)->Some_0.state == VpnState::Connected) <==> split(line, ':')[3]
            == "activated"@,
        (nm_connection(line, ifs)->Some_0.state == VpnState::Connecting) <==> split(line, ':')[3]
            == "activating"@,
{
    law_vpn_states(split(line, ':')[3]);
}

/// The first interface of `ifs` called `name`.
pub open spec fn first_named(ifs: Seq<NetIfView>, name: Seq<char>) -> Option<NetIfView>
    decreases ifs.len(),
{
    if ifs.len() == 0 {
        None
    } else {
        match first_named(ifs.drop_last(), name) {
            Some(i) => Some(i),
            None => if ifs.last().name == name {
                Some(ifs.last())
            } else {
                None
            },
        }
    }
}

/// The first IPv4 address of an interface.
pub open spec fn first_ipv4(i: NetIfView) -> Option<Seq<char>> {
    if i.ipv4_addrs.len() > 0 {
        Some(i.ipv4_addrs[0])
    } else {
        None
    }
}

/// The VPN connection that a line of `nmcli -t -f NAME,TYPE,DEVICE,STATE
/// connection show --active` describes, with the traffic and address of its
/// device, if the connection is a VPN.
pub open spec fn nm_connection(line: Seq<char>, ifs: Seq<NetIfView>) -> Option<ConnView> {
    let parts = split(line, ':');
    if parts.len() >= 4 && (contains(parts[1], "vpn"@) || parts[1] == "wireguard"@) {
        let device = if parts[2].len() == 0 {
            None
        } else {
            Some(parts[2])
        };
        let found = match device {
            Some(d) => first_named(ifs, d),
            None => None,
        };
        Some(
            ConnView {
                name: parts[0],
                vpn_type: vpn_type_of(parts[1]),
                state: vpn_state_of(parts[3]),
                interface: device,
                server: None,
                local_ip: match found {
                    Some(i) => first_ipv4(i),
                    None => None,
                },
                connected_since: None,
                rx_bytes: match found {
                    Some(i) => i.rx_bytes,
                    None => 0,
                },
                tx_bytes: match found {
                    Some(i) => i.tx_bytes,
                    None => 0,
                },
            },
        )
    } else {
        None
    }
}

/// The VPN connections that the lines `ls` of `nmcli` describe, in order.
pub open spec fn nm_connections(ls: Seq<Seq<char>>, ifs: Seq<NetIfView>) -> Seq<ConnView>
    decreases ls.len(),
{
    if ls.len() == 0 {
        Seq::<ConnView>::empty()
    } else {
        let prev = nm_connections(ls.drop_last(), ifs);
        match nm_connection(ls.last(), ifs) {
            Some(c) => prev.push(c),
            None => prev,
        }
    }
}

/// Some connection of `cs` goes through the interface `name`.
pub open spec fn uses_interface(cs: Seq<ConnView>, name: Seq<char>) -> bool {
    exists|k: int| 0 <= k < cs.len() && #[trigger] cs[k].interface == Some(name)
}

/// A WireGuard interface that no connection manager knows, as a connection.
pub open spec fn standalone_wireguard(i: NetIfView) -> ConnView {
    ConnView {
        name: i.name,
        vpn_type: VpnType::WireGuard,
        state: if i.is_up {
            VpnState::Connected
        } else {
            VpnState::Disconnected
        },
        interface: Some(i.name),
        server: None,
        local_ip: first_ipv4(i),
        connected_since: None,
        rx_bytes: i.rx_bytes,
        tx_bytes: i.tx_bytes,
    }
}

/// `cs` with a connection added for each WireGuard interface of `ifs` that
/// no connection goes through yet, in the order of `ifs`.
pub open spec fn with_standalone(cs: Seq<ConnView>, ifs: Seq<NetIfView>) -> Seq<ConnView>
    decreases ifs.len(),
{
    if ifs.len() == 0 {
        cs
    } else {
        let prev = with_standalone(cs, ifs.drop_last());
        let i = ifs.last();
        if i.iface_type == InterfaceType::WireGuard && !uses_interface(prev, i.name) {
            prev.push(standalone_wireguard(i))
        } else {
            prev
        }
    }
}

/// The VPN connections: those NetworkManager reports active, then the
/// WireGuard interfaces that it does not manage.
pub open spec fn vpn_connections_of(nmcli: Seq<char>, ifs: Seq<NetIfView>) -> Seq<ConnView> {
    with_standalone(nm_connections(lines(nmcli), ifs), ifs)
}

/// The position of the first interface called `name`.
fn find_interface(ifs: &[NetworkInterface], name: &[char]) -> (r: Option<usize>)
    ensures
        match first_named(iface_views(ifs@), name@) {
            Some(x) => r matches Some(k) && k < ifs@.len() && ifs@[k as int]@ == x,
            None => r is None,
        },
{
    let ghost v = iface_views(ifs@);
    let mut i: usize = 0;
    assert(v.take(0) =~= Seq::<NetIfView>::empty());
    while i < ifs.len()
        invariant
            i <= ifs@.len(),
            v == iface_views(ifs@),
            first_named(v.take(i as int), name@) is None,
        decreases ifs@.len() - i,
    {
        assert(v.take(i + 1).drop_last() =~= v.take(i as int));
        assert(v[i as int] == ifs@[i as int]@);
        let n = chars_of(ifs[i].name.as_str());
        if seq_eq(n.as_slice(), name) {
            assert(first_named(v.take(i + 1), name@) == Some(v[i as int]));
            proof {
                lemma_first_named_prefix(v, name@, i + 1);
            }
            return Some(i);
        }
        i = i + 1;
    }
    assert(v.take(i as int) =~= v);
    None
}

/// The first interface with a name in a prefix is the first in the whole.
proof fn lemma_first_named_prefix(v: Seq<NetIfView>, name: Seq<char>, k: int)
    requires
        0 <= k <= v.len(),
        first_named(v.take(k), name) is Some,
    ensures
        first_named(v, name) == first_named(v.take(k), name),
    decreases v.len() - k,
{
    if k < v.len() {
        assert(v.take(k + 1).drop_last() =~= v.take(k));
        lemma_first_named_prefix(v, name, k + 1);
    } else {
        assert(v.take(k) =~= v);
    }
}

fn first_ipv4_of(i: &NetworkInterface) -> (r: Option<String>)
    ensures
        opt_str(r) == first_ipv4(i@),
{
    if i.ipv4_addrs.len() > 0 {
        assert(string_views(i.ipv4_addrs@)[0] == i.ipv4_addrs@[0]@);
        Some(i.ipv4_addrs[0].clone())
    } else {
        None
    }
}

fn nm_connection_from(line: &[char], ifs: &[NetworkInterface]) -> (r: Option<VpnConnection>)
    ensures
        match nm_connection(line@, iface_views(ifs@)) {
            Some(c) => r matches Some(x) && x@ == c,
            None => r is None,
        },
{
    let parts = split_on(line, ':');
    if parts.len() < 4 {
        return None;
    }
    assert(views(parts@)[0] == parts@[0]@);
    assert(views(parts@)[1] == parts@[1]@);
    assert(views(parts@)[2] == parts@[2]@);
    assert(views(parts@)[3] == parts@[3]@);
    let t = parts[1].as_slice();
    if !(contains_str(t, "vpn") || eq_str(t, "wireguard")) {
        return None;
    }
    let vpn_type = if eq_str(t, "wireguard") {
        VpnType::WireGuard
    } else if contains_str(t, "openvpn") {
        VpnType::OpenVPN
    } else if contains_str(t, "ipsec") || contains_str(t, "libreswan") {
        VpnType::IPSec
    } else if contains_str(t, "pptp") {
        VpnType::PPTP
    } else if contains_str(t, "l2tp") {
        VpnType::L2TP
    } else {
        VpnType::Unknown
    };
    let st = parts[3].as_slice();
    let state = if eq_str(st, "activated") {
        VpnState::Connected
    } else if eq_str(st, "activating") {
        VpnState::Connecting
    } else if eq_str(st, "deactivated") || eq_str(st, "deactivating") {
        VpnState::Disconnected
    } else {
        VpnState::Unknown
    };
    let dev = parts[2].as_slice();
    let (interface, rx_bytes, tx_bytes, local_ip) = if dev.len() == 0 {
        (None, 0, 0, None)
    } else {
        match find_interface(ifs, dev) {
            Some(k) => (
                Some(string_of(dev)),
                ifs[k].rx_bytes,
                ifs[k].tx_bytes,
                first_ipv4_of(&ifs[k]),
            ),
            None => (Some(string_of(dev)), 0, 0, None),
        }
    };
    Some(
        VpnConnection {
            name: string_of(parts[0].as_slice()),
            vpn_type,
            state,
            interface,
            server: None,
            local_ip,
            connected_since: None,
            rx_bytes,
            tx_bytes,
        },
    )
}

/// Whether some connection of `cs` goes through the interface `name`.
fn uses_interface_exec(cs: &Vec<VpnConnection>, name: &[char]) -> (r: bool)
    ensures
        r == uses_interface(conn_views(cs@), name@),
{
    let ghost v = conn_views(cs@);
    let mut k: usize = 0;
    while k < cs.len()
        invariant
            k <= cs@.len(),
            v == conn_views(cs@),
            forall|j: int| 0 <= j < k ==> #[trigger] v[j].interface != Some(name@),
        decreases cs@.len() - k,
    {
        assert(v[k as int] == cs@[k as int]@);
        match &cs[k].interface {
            Some(n) => {
                let c = chars_of(n.as_str());
                if seq_eq(c.as_slice(), name) {
                    assert(v[k as int].interface == Some(name@));
                    return true;
                }
            },
            None => {},
        }
        k = k + 1;
    }
    false
}

impl VpnBackend {
    /// The VPN connections: those that `nmcli` reports active, then the
    /// WireGuard interfaces that NetworkManager does not manage.
    pub fn get_vpn_connections(&self, nmcli_output: &str, interfaces: &[NetworkInterface]) -> (r:
        Vec<VpnConnection>)
        ensures
            conn_views(r@) == vpn_connections_of(nmcli_output@, iface_views(interfaces@)),
    {
        let ghost ifs = iface_views(interfaces@);
        let ls = lines_of(chars_of(nmcli_output).as_slice());
        let mut connections: Vec<VpnConnection> = Vec::new();
        let mut i: usize = 0;
        assert(views(ls@).take(0) =~= Seq::<Seq<char>>::empty());
        assert(conn_views(connections@) =~= Seq::<ConnView>::empty());
        while i < ls.len()
            invariant
                i <= ls@.len(),
                views(ls@) == lines(nmcli_output@),
                ifs == iface_views(interfaces@),
                conn_views(connections@) == nm_connections(views(ls@).take(i as int), ifs),
            decreases ls@.len() - i,
        {
            assert(views(ls@).take(i + 1).drop_last() =~= views(ls@).take(i as int));
            assert(views(ls@)[i as int] == ls@[i as int]@);
            let ghost before = connections@;
            match nm_connection_from(ls[i].as_slice(), interfaces) {
                Some(c) => {
                    connections.push(c);
                    assert(conn_views(connections@) =~= conn_views(before).push(c@));
                },
                None => {},
            }
            i = i + 1;
        }
        assert(views(ls@).take(i as int) =~= views(ls@));
        let ghost nm = conn_views(connections@);
        let mut j: usize = 0;
        assert(ifs.take(0) =~= Seq::<NetIfView>::empty());
        while j < interfaces.len()
            invariant
                j <= interfaces@.len(),
                ifs == iface_views(interfaces@),
                conn_views(connections@) == with_standalone(nm, ifs.take(j as int)),
            decreases interfaces@.len() - j,
        {
            assert(ifs.take(j + 1).drop_last() =~= ifs.take(j as int));
            assert(ifs[j as int] == interfaces@[j as int]@);
            let iface = &interfaces[j];
            if iface.iface_type == InterfaceType::WireGuard {
                let n = chars_of(iface.name.as_str());
                if !uses_interface_exec(&connections, n.as_slice()) {
                    let ghost before = connections@;
                    let c = VpnConnection {
                        name: iface.name.clone(),
                        vpn_type: VpnType::WireGuard,
                        state: if iface.is_up {
                            VpnState::Connected
                        } else {
                            VpnState::Disconnected
                        },
                        interface: Some(iface.name.clone()),
                        server: None,
                        local_ip: first_ipv4_of(iface),
                        connected_since: None,
                        rx_bytes: iface.rx_bytes,
                        tx_bytes: iface.tx_bytes,
                    };
                    connections.push(c);
                    assert(conn_views(connections@) =~= conn_views(before).push(c@));
                }
            }
            j = j + 1;
        }
        assert(ifs.take(j as int) =~= ifs);
        connections
    }
}

// Bandwidth

/// Bytes received and sent through VPN interfaces and through physical
/// interfaces.
pub struct Traffic {
    pub vpn_rx: int,
    pub vpn_tx: int,
    pub direct_rx: int,
    pub direct_tx: int,
}

/// The traffic so far plus that of one interface: VPN interfaces count as
/// tunnelled, physical ones as direct, others not at all.
pub open spec fn add_traffic(t: Traffic, i: NetIfView, rx: int, tx: int) -> Traffic {
    if i.is_vpn {
        Traffic { vpn_rx: t.vpn_rx + rx, vpn_tx: t.vpn_tx + tx, ..t }
    } else if i.iface_type == InterfaceType::Physical {
        Traffic { direct_rx: t.direct_rx + rx, direct_tx: t.direct_tx + tx, ..t }
    } else {
        t
    }
}

pub open spec fn no_traffic() -> Traffic {
    Traffic { vpn_rx: 0, vpn_tx: 0, direct_rx: 0, direct_tx: 0 }
}

/// The byte counters of the interfaces, loopback left out, summed.
pub open spec fn traffic_totals(ifs: Seq<NetIfView>) -> Traffic
    decreases ifs.len(),
{
    if ifs.len() == 0 {
        no_traffic()
    } else {
        let prev = traffic_totals(ifs.drop_last());
        let i = ifs.last();
        if i.iface_type == InterfaceType::Loopback {
            prev
        } else {
            add_traffic(prev, i, i.rx_bytes as int, i.tx_bytes as int)
        }
    }
}

/// The counters that the last reading holds for the interface `name`.
pub open spec fn last_counters(prev: Seq<(Seq<char>, u64, u64)>, name: Seq<char>) -> Option<
    (u64, u64),
>
    decreases prev.len(),
{
    if prev.len() == 0 {
        None
    } else if prev.last().0 == name {
        Some((prev.last().1, prev.last().2))
    } else {
        last_counters(prev.drop_last(), name)
    }
}

/// `a - b`, or 0 when `b` is larger.
pub open spec fn sat_sub(a: u64, b: u64) -> int {
    if a >= b {
        a - b
    } else {
        0
    }
}

/// The bytes moved since the last reading, summed as for the totals, over
/// the interfaces that the last reading knows.
pub open spec fn traffic_deltas(ifs: Seq<NetIfView>, prev: Seq<(Seq<char>, u64, u64)>) -> Traffic
    decreases ifs.len(),
{
    if ifs.len() == 0 {
        no_traffic()
    } else {
        let before = traffic_deltas(ifs.drop_last(), prev);
        let i = ifs.last();
        match last_counters(prev, i.name) {
            Some((rx, tx)) => add_traffic(before, i, sat_sub(i.rx_bytes, rx), sat_sub(i.tx_bytes, tx)),
            None => before,
        }
    }
}

/// The counters of the interfaces, loopback left out, in order.
pub open spec fn counters_of(ifs: Seq<NetIfView>) -> Seq<(Seq<char>, u64, u64)>
    decreases ifs.len(),
{
    if ifs.len() == 0 {
        Seq::<(Seq<char>, u64, u64)>::empty()
    } else {
        let prev = counters_of(ifs.drop_last());
        let i = ifs.last();
        if i.iface_type == InterfaceType::Loopback {
            prev
        } else {
            prev.push((i.name, i.rx_bytes, i.tx_bytes))
        }
    }
}

/// The sum of the four counts of `t`.
pub open spec fn traffic_sum(t: Traffic) -> int {
    t.vpn_rx + t.vpn_tx + t.direct_rx + t.direct_tx
}

/// Bytes moved through the tunnel and around it since the last reading.
#[derive(Debug, Clone, Copy, PartialEq, Eq, Structural)]
pub struct TrafficDeltas {
    pub vpn_rx_bytes: u64,
    pub vpn_tx_bytes: u64,
    pub direct_rx_bytes: u64,
    pub direct_tx_bytes: u64,
}

/// The traffic split between the tunnel and the direct path: the byte
/// counters, and the bytes moved since the last reading when there was one
/// and time has passed since.
#[derive(Debug, Clone, Copy, PartialEq, Eq, Structural)]
pub struct BandwidthCounts {
    pub vpn_rx_bytes: u64,
    pub vpn_tx_bytes: u64,
    pub direct_rx_bytes: u64,
    pub direct_tx_bytes: u64,
    pub deltas: Option<TrafficDeltas>,
}

fn counted(t: &mut (u64, u64, u64, u64), i: &NetworkInterface, rx: u64, tx: u64)
    requires
        i.is_vpn ==> old(t).0 + rx <= u64::MAX && old(t).1 + tx <= u64::MAX,
        !i.is_vpn && i.iface_type == InterfaceType::Physical ==> old(t).2 + rx <= u64::MAX
            && old(t).3 + tx <= u64::MAX,
    ensures
        (Traffic {
            vpn_rx: final(t).0 as int,
            vpn_tx: final(t).1 as int,
            direct_rx: final(t).2 as int,
            direct_tx: final(t).3 as int,
        }) == add_traffic(
            Traffic {
                vpn_rx: old(t).0 as int,
                vpn_tx: old(t).1 as int,
                direct_rx: old(t).2 as int,
                direct_tx: old(t).3 as int,
            },
            i@,
            rx as int,
            tx as int,
        ),
{
    if i.is_vpn {
        t.0 = t.0 + rx;
        t.1 = t.1 + tx;
    } else if i.iface_type == InterfaceType::Physical {
        t.2 = t.2 + rx;
        t.3 = t.3 + tx;
    }
}

/// Sums grow with the traffic added.
proof fn lemma_traffic_grows(ifs: Seq<NetIfView>, k: int)
    requires
        0 <= k <= ifs.len(),
    ensures
        traffic_totals(ifs.take(k)).vpn_rx <= traffic_totals(ifs).vpn_rx,
        traffic_totals(ifs.take(k)).vpn_tx <= traffic_totals(ifs).vpn_tx,
        traffic_totals(ifs.take(k)).direct_rx <= traffic_totals(ifs).direct_rx,
        traffic_totals(ifs.take(k)).direct_tx <= traffic_totals(ifs).direct_tx,
        0 <= traffic_totals(ifs.take(k)).vpn_rx,
        0 <= traffic_totals(ifs.take(k)).vpn_tx,
        0 <= traffic_totals(ifs.take(k)).direct_rx,
        0 <= traffic_totals(ifs.take(k)).direct_tx,
    decreases ifs.len() - k,
{
    lemma_traffic_nonneg(ifs.take(k));
    if k < ifs.len() {
        assert(ifs.take(k + 1).drop_last() =~= ifs.take(k));
        lemma_traffic_grows(ifs, k + 1);
    } else {
        assert(ifs.take(k) =~= ifs);
        lemma_traffic_nonneg(ifs);
    }
}

proof fn lemma_traffic_nonneg(ifs: Seq<NetIfView>)
    ensures
        0 <= traffic_totals(ifs).vpn_rx,
        0 <= traffic_totals(ifs).vpn_tx,
        0 <= traffic_totals(ifs).direct_rx,
        0 <= traffic_totals(ifs).direct_tx,
    decreases ifs.len(),
{
    if ifs.len() > 0 {
        lemma_traffic_nonneg(ifs.drop_last());
    }
}

proof fn lemma_deltas_grow(ifs: Seq<NetIfView>, prev: Seq<(Seq<char>, u64, u64)>, k: int)
    requires
        0 <= k <= ifs.len(),
    ensures
        traffic_deltas(ifs.take(k), prev).vpn_rx <= traffic_deltas(ifs, prev).vpn_rx,
        traffic_deltas(ifs.take(k), prev).vpn_tx <= traffic_deltas(ifs, prev).vpn_tx,
        traffic_deltas(ifs.take(k), prev).direct_rx <= traffic_deltas(ifs, prev).direct_rx,
        traffic_deltas(ifs.take(k), prev).direct_tx <= traffic_deltas(ifs, prev).direct_tx,
        0 <= traffic_deltas(ifs.take(k), prev).vpn_rx,
        0 <= traffic_deltas(ifs.take(k), prev).vpn_tx,
        0 <= traffic_deltas(ifs.take(k), prev).direct_rx,
        0 <= traffic_deltas(ifs.take(k), prev).direct_tx,
    decreases ifs.len() - k,
{
    lemma_deltas_nonneg(ifs.take(k), prev);
    if k < ifs.len() {
        assert(ifs.take(k + 1).drop_last() =~= ifs.take(k));
        lemma_deltas_grow(ifs, prev, k + 1);
    } else {
        assert(ifs.take(k) =~= ifs);
        lemma_deltas_nonneg(ifs, prev);
    }
}

proof fn lemma_deltas_nonneg(ifs: Seq<NetIfView>, prev: Seq<(Seq<char>, u64, u64)>)
    ensures
        0 <= traffic_deltas(ifs, prev).vpn_rx,
        0 <= traffic_deltas(ifs, prev).vpn_tx,
        0 <= traffic_deltas(ifs, prev).direct_rx,
        0 <= traffic_deltas(ifs, prev).direct_tx,
    decreases ifs.len(),
{
    if ifs.len() > 0 {
        lemma_deltas_nonneg(ifs.drop_last(), prev);
    }
}

/// No two interfaces share a name.
pub open spec fn distinct_names(ifs: Seq<NetIfView>) -> bool {
    forall|i: int, j: int| 0 <= i < j < ifs.len() ==> #[trigger] ifs[i].name != #[trigger] ifs[j].name
}

proof fn lemma_counters_absent(s: Seq<NetIfView>, name: Seq<char>)
    requires
        forall|j: int| 0 <= j < s.len() ==> #[trigger] s[j].name != name,
    ensures
        last_counters(counters_of(s), name) is None,
    decreases s.len(),
{
    if s.len() > 0 {
        let p = s.drop_last();
        assert forall|j: int| 0 <= j < p.len() implies #[trigger] p[j].name != name by {
            assert(p[j] == s[j]);
        }
        lemma_counters_absent(p, name);
        assert(s.last().name != name);
        let c = counters_of(p);
        let x = (s.last().name, s.last().rx_bytes, s.last().tx_bytes);
        assert(c.push(x).drop_last() =~= c);
    }
}

proof fn lemma_counters_lookup(s: Seq<NetIfView>, k: int)
    requires
        distinct_names(s),
        0 <= k < s.len(),
    ensures
        last_counters(counters_of(s), s[k].name) == (if s[k].iface_type == InterfaceType::Loopback {
            None::<(u64, u64)>
        } else {
            Some((s[k].rx_bytes, s[k].tx_bytes))
        }),
    decreases s.len(),
{
    let p = s.drop_last();
    assert(distinct_names(p)) by {
        assert forall|i: int, j: int| 0 <= i < j < p.len() implies #[trigger] p[i].name
            != #[trigger] p[j].name by {
            assert(p[i] == s[i] && p[j] == s[j]);
        }
    }
    let c = counters_of(p);
    let x = (s.last().name, s.last().rx_bytes, s.last().tx_bytes);
    assert(c.push(x).drop_last() =~= c);
    if k == s.len() - 1 {
        if s[k].iface_type == InterfaceType::Loopback {
            assert forall|j: int| 0 <= j < p.len() implies #[trigger] p[j].name != s[k].name by {
                assert(p[j] == s[j]);
            }
            lemma_counters_absent(p, s[k].name);
        }
    } else {
        assert(p[k] == s[k]);
        assert(s.last().name != s[k].name);
        lemma_counters_lookup(p, k);
    }
}

proof fn lemma_unchanged_deltas(ifs: Seq<NetIfView>, prev: Seq<(Seq<char>, u64, u64)>, m: int)
    requires
        0 <= m <= ifs.len(),
        forall|k: int|
            0 <= k < ifs.len() ==> match last_counters(prev, #[trigger] ifs[k].name) {
                Some((rx, tx)) => rx == ifs[k].rx_bytes && tx == ifs[k].tx_bytes,
                None => true,
            },
    ensures
        traffic_deltas(ifs.take(m), prev) == no_traffic(),
    decreases m,
{
    if m > 0 {
        let t = ifs.take(m);
        assert(t.drop_last() =~= ifs.take(m - 1));
        assert(t.last() == ifs[m - 1]);
        lemma_unchanged_deltas(ifs, prev, m - 1);
        let i = ifs[m - 1];
        match last_counters(prev, i.name) {
            Some((rx, tx)) => {
                assert(sat_sub(i.rx_bytes, rx) == 0);
                assert(sat_sub(i.tx_bytes, tx) == 0);
            },
            None => {},
        }
    }
}

/// Reading the same counters twice reports no traffic moved in between,
/// when the interfaces have distinct names: the counters that a reading
/// keeps, compared with the same interfaces, give nothing through the
/// tunnel and nothing around it.
pub proof fn law_unchanged_counters_no_traffic(ifs: Seq<NetIfView>)
    requires
        distinct_names(ifs),
    ensures
        traffic_deltas(ifs, counters_of(ifs)) == no_traffic(),
{
    let p = counters_of(ifs);
    assert forall|k: int| 0 <= k < ifs.len() implies match last_counters(p, #[trigger] ifs[k].name) {
        Some((rx, tx)) => rx == ifs[k].rx_bytes && tx == ifs[k].tx_bytes,
        None => true,
    } by {
        lemma_counters_lookup(ifs, k);
    }
    lemma_unchanged_deltas(ifs, p, ifs.len() as int);
    assert(ifs.take(ifs.len() as int) =~= ifs);
}

/// The counters that the last reading holds for `name`.
fn last_counters_exec(prev: &Vec<InterfaceCounters>, name: &[char]) -> (r: Option<(u64, u64)>)
    ensures
        r == last_counters(counter_views(prev@), name@),
{
    let ghost v = counter_views(prev@);
    let mut k: usize = prev.len();
    assert(v.take(k as int) =~= v);
    while k > 0
        invariant
            k <= prev@.len(),
            v == counter_views(prev@),
            last_counters(v, name@) == last_counters(v.take(k as int), name@),
        decreases k,
    {
        assert(v.take(k as int).last() == v[k - 1]);
        assert(v.take(k as int).drop_last() =~= v.take(k - 1));
        let c = chars_of(prev[k - 1].name.as_str());
        if seq_eq(c.as_slice(), name) {
            return Some((prev[k - 1].rx_bytes, prev[k - 1].tx_bytes));
        }
        k = k - 1;
    }
    None
}

impl VpnBackend {
    /// The traffic through the tunnel and around it; the bytes moved since
    /// the last reading are given when there was one and `elapsed_positive`
    /// says that time has passed since. The counters of this reading are
    /// kept for the next.
    pub fn calculate_bandwidth_split(
        &mut self,
        interfaces: &[NetworkInterface],
        elapsed_positive: bool,
    ) -> (r: BandwidthCounts)
        requires
            traffic_sum(traffic_totals(iface_views(interfaces@))) <= u64::MAX,
            elapsed_positive ==> match old(self).previous_counters() {
                Some(p) => {
                    let d = traffic_deltas(iface_views(interfaces@), p);
                    &&& d.vpn_rx <= u64::MAX
                    &&& d.vpn_tx <= u64::MAX
                    &&& d.direct_rx <= u64::MAX
                    &&& d.direct_tx <= u64::MAX
                },
                None => true,
            },
        ensures
            ({
                let t = traffic_totals(iface_views(interfaces@));
                &&& r.vpn_rx_bytes == t.vpn_rx
                &&& r.vpn_tx_bytes == t.vpn_tx
                &&& r.direct_rx_bytes == t.direct_rx
                &&& r.direct_tx_bytes == t.direct_tx
            }),
            match old(self).previous_counters() {
                Some(p) => if elapsed_positive {
                    let d = traffic_deltas(iface_views(interfaces@), p);
                    r.deltas == Some(
                        TrafficDeltas {
                            vpn_rx_bytes: d.vpn_rx as u64,
                            vpn_tx_bytes: d.vpn_tx as u64,
                            direct_rx_bytes: d.direct_rx as u64,
                            direct_tx_bytes: d.direct_tx as u64,
                        },
                    )
                } else {
                    r.deltas is None
                },
                None => r.deltas is None,
            },
            final(self).previous_counters() == Some(counters_of(iface_views(interfaces@))),
    {
        let ghost ifs = iface_views(interfaces@);
        let mut totals: (u64, u64, u64, u64) = (0, 0, 0, 0);
        let mut current: Vec<InterfaceCounters> = Vec::new();
        let mut i: usize = 0;
        assert(ifs.take(0) =~= Seq::<NetIfView>::empty());
        assert(counter_views(current@) =~= Seq::<(Seq<char>, u64, u64)>::empty());
        while i < interfaces.len()
            invariant
                i <= interfaces@.len(),
                ifs == iface_views(interfaces@),
                traffic_sum(traffic_totals(ifs)) <= u64::MAX,
                (Traffic {
                    vpn_rx: totals.0 as int,
                    vpn_tx: totals.1 as int,
                    direct_rx: totals.2 as int,
                    direct_tx: totals.3 as int,
                }) == traffic_totals(ifs.take(i as int)),
                counter_views(current@) == counters_of(ifs.take(i as int)),
            decreases interfaces@.len() - i,
        {
            assert(ifs.take(i + 1).drop_last() =~= ifs.take(i as int));
            assert(ifs[i as int] == interfaces@[i as int]@);
            let iface = &interfaces[i];
            if iface.iface_type != InterfaceType::Loopback {
                proof {
                    lemma_traffic_grows(ifs, i + 1);
                }
                let ghost before = current@;
                let c = InterfaceCounters {
                    name: iface.name.clone(),
                    rx_bytes: iface.rx_bytes,
                    tx_bytes: iface.tx_bytes,
                };
                current.push(c);
                assert(counter_views(current@) =~= counter_views(before).push(
                    (iface.name@, iface.rx_bytes, iface.tx_bytes),
                ));
                counted(&mut totals, iface, iface.rx_bytes, iface.tx_bytes);
            }
            i = i + 1;
        }
        assert(ifs.take(i as int) =~= ifs);
        let deltas = match &self.prev_stats {
            Some(prev) => if elapsed_positive {
                let ghost p = counter_views(prev@);
                let mut d: (u64, u64, u64, u64) = (0, 0, 0, 0);
                let mut j: usize = 0;
                while j < interfaces.len()
                    invariant
                        j <= interfaces@.len(),
                        ifs == iface_views(interfaces@),
                        p == counter_views(prev@),
                        ({
                            let dd = traffic_deltas(ifs, p);
                            &&& dd.vpn_rx <= u64::MAX
                            &&& dd.vpn_tx <= u64::MAX
                            &&& dd.direct_rx <= u64::MAX
                            &&& dd.direct_tx <= u64::MAX
                        }),
                        (Traffic {
                            vpn_rx: d.0 as int,
                            vpn_tx: d.1 as int,
                            direct_rx: d.2 as int,
                            direct_tx: d.3 as int,
                        }) == traffic_deltas(ifs.take(j as int), p),
                    decreases interfaces@.len() - j,
                {
                    assert(ifs.take(j + 1).drop_last() =~= ifs.take(j as int));
                    assert(ifs[j as int] == interfaces@[j as int]@);
                    let iface = &interfaces[j];
                    let n = chars_of(iface.name.as_str());
                    match last_counters_exec(prev, n.as_slice()) {
                        Some((prx, ptx)) => {
                            proof {
                                lemma_deltas_grow(ifs, p, j + 1);
                            }
                            let rx = if iface.rx_bytes >= prx {
                                iface.rx_bytes - prx
                            } else {
                                0
                            };
                            let tx = if iface.tx_bytes >= ptx {
                                iface.tx_bytes - ptx
                            } else {
                                0
                            };
                            counted(&mut d, iface, rx, tx);
                        },
                        None => {},
                    }
                    j = j + 1;
                }
                assert(ifs.take(j as int) =~= ifs);
                Some(
                    TrafficDeltas {
                        vpn_rx_bytes: d.0,
                        vpn_tx_bytes: d.1,
                        direct_rx_bytes: d.2,
                        direct_tx_bytes: d.3,
                    },
                )
            } else {
                None
            },
            None => None,
        };
        self.prev_stats = Some(current);
        BandwidthCounts {
            vpn_rx_bytes: totals.0,
            vpn_tx_bytes: totals.1,
            direct_rx_bytes: totals.2,
            direct_tx_bytes: totals.3,
            deltas,
        }
    }
}

// Interface Detection

/// The counters of an interface in `/proc/net/dev`.
#[derive(Debug, Clone, Copy, PartialEq, Eq, Structural)]
pub struct DevStats {
    pub rx_bytes: u64,
    pub rx_packets: u64,
    pub rx_errors: u64,
    pub rx_dropped: u64,
    pub tx_bytes: u64,
    pub tx_packets: u64,
    pub tx_errors: u64,
    pub tx_dropped: u64,
}

/// A line of `/proc/net/dev` with its interface name.
#[derive(Debug)]
pub struct DevLine {
    pub name: String,
    pub stats: DevStats,
}

/// The decimal `u64` value of a field, 0 when it does not parse.
pub open spec fn u64_or_zero(s: Seq<char>) -> u64 {
    match parse_unsigned(s, 10, u64::MAX as nat) {
        Some(v) => v as u64,
        None => 0,
    }
}

/// The interface name and counters that a line of `/proc/net/dev` with at
/// least seventeen fields gives.
pub open spec fn dev_line_of(line: Seq<char>) -> Option<(Seq<char>, DevStats)> {
    let p = words(line);
    if p.len() >= 17 {
        Some(
            (
                trim_char_end(p[0], ':'),
                DevStats {
                    rx_bytes: u64_or_zero(p[1]),
                    rx_packets: u64_or_zero(p[2]),
                    rx_errors: u64_or_zero(p[3]),
                    rx_dropped: u64_or_zero(p[4]),
                    tx_bytes: u64_or_zero(p[9]),
                    tx_packets: u64_or_zero(p[10]),
                    tx_errors: u64_or_zero(p[11]),
                    tx_dropped: u64_or_zero(p[12]),
                },
            ),
        )
    } else {
        None
    }
}

/// The interface lines of `/proc/net/dev` (after its two header lines), in
/// order.
pub open spec fn dev_lines_of(ls: Seq<Seq<char>>) -> Seq<(Seq<char>, DevStats)>
    decreases ls.len(),
{
    if ls.len() <= 2 {
        Seq::<(Seq<char>, DevStats)>::empty()
    } else {
        let prev = dev_lines_of(ls.drop_last());
        match dev_line_of(ls.last()) {
            Some(d) => prev.push(d),
            None => prev,
        }
    }
}

/// The views of a sequence of device lines.
pub open spec fn dev_views(v: Seq<DevLine>) -> Seq<(Seq<char>, DevStats)> {
    v.map_values(|d: DevLine| (d.name@, d.stats))
}

/// The counters that the last line for `name` gives, if any.
pub open spec fn stats_for(d: Seq<(Seq<char>, DevStats)>, name: Seq<char>) -> Option<DevStats>
    decreases d.len(),
{
    if d.len() == 0 {
        None
    } else if d.last().0 == name {
        Some(d.last().1)
    } else {
        stats_for(d.drop_last(), name)
    }
}

fn u64_field(s: &[char]) -> (r: u64)
    ensures
        r == u64_or_zero(s@),
{
    match parse_uint(s, 10, 0xffff_ffff_ffff_ffff) {
        Some(v) => v,
        None => 0,
    }
}

fn trim_colons(s: &[char]) -> (r: Vec<char>)
    ensures
        r@ == trim_char_end(s@, ':'),
{
    let mut j: usize = s.len();
    assert(s@.take(j as int) =~= s@);
    while j > 0 && s[j - 1] == ':'
        invariant
            j <= s@.len(),
            trim_char_end(s@, ':') == trim_char_end(s@.take(j as int), ':'),
        decreases j,
    {
        assert(s@.take(j as int).drop_last() =~= s@.take(j - 1));
        j = j - 1;
    }
    slice_of(s, 0, j)
}

impl VpnBackend {
    /// The interface lines of `/proc/net/dev`.
    pub fn parse_net_dev(net_dev: &str) -> (r: Vec<DevLine>)
        ensures
            dev_views(r@) == dev_lines_of(lines(net_dev@)),
    {
        let ls = lines_of(chars_of(net_dev).as_slice());
        let mut r: Vec<DevLine> = Vec::new();
        let mut i: usize = 0;
        assert(dev_views(r@) =~= Seq::<(Seq<char>, DevStats)>::empty());
        while i < ls.len()
            invariant
                i <= ls@.len(),
                views(ls@) == lines(net_dev@),
                dev_views(r@) == dev_lines_of(views(ls@).take(i as int)),
            decreases ls@.len() - i,
        {
            assert(views(ls@).take(i + 1).drop_last() =~= views(ls@).take(i as int));
            assert(views(ls@)[i as int] == ls@[i as int]@);
            if i >= 2 {
                let p = split_ws(ls[i].as_slice());
                if p.len() >= 17 {
                    assert(forall|k: int| 0 <= k < p@.len() ==> views(p@)[k] == p@[k]@);
                    let stats = DevStats {
                        rx_bytes: u64_field(p[1].as_slice()),
                        rx_packets: u64_field(p[2].as_slice()),
                        rx_errors: u64_field(p[3].as_slice()),
                        rx_dropped: u64_field(p[4].as_slice()),
                        tx_bytes: u64_field(p[9].as_slice()),
                        tx_packets: u64_field(p[10].as_slice()),
                        tx_errors: u64_field(p[11].as_slice()),
                        tx_dropped: u64_field(p[12].as_slice()),
                    };
                    let name = trim_colons(p[0].as_slice());
                    let ghost before = r@;
                    let d = DevLine { name: string_of(name.as_slice()), stats };
                    r.push(d);
                    assert(dev_views(r@) =~= dev_views(before).push((name@, stats)));
                }
            }
            i = i + 1;
        }
        assert(views(ls@).take(i as int) =~= views(ls@));
        r
    }
}

/// The counters that the last line for `name` gives.
fn stats_for_exec(d: &Vec<DevLine>, name: &[char]) -> (r: Option<DevStats>)
    ensures
        r == stats_for(dev_views(d@), name@),
{
    let ghost v = dev_views(d@);
    let mut k: usize = d.len();
    assert(v.take(k as int) =~= v);
    while k > 0
        invariant
            k <= d@.len(),
            v == dev_views(d@),
            stats_for(v, name@) == stats_for(v.take(k as int), name@),
        decreases k,
    {
        assert(v.take(k as int).last() == v[k - 1]);
        assert(v.take(k as int).drop_last() =~= v.take(k - 1));
        let c = chars_of(d[k - 1].name.as_str());
        if seq_eq(c.as_slice(), name) {
            return Some(d[k - 1].stats);
        }
        k = k - 1;
    }
    None
}

/// What the system shows of an interface besides its name: whether its
/// `device/type` and `bridge` entries exist, its `uevent` file, whether
/// `wg show` knows it, where its `device` link points and the name of its
/// driver.
#[derive(Debug)]
pub struct InterfaceProbe {
    pub device_type_exists: bool,
    pub uevent: Option<String>,
    pub wg_show_ok: bool,
    pub bridge_exists: bool,
    pub device_link: Option<String>,
    pub driver: Option<String>,
}

/// Driver names of physical network devices.
pub open spec fn physical_driver(d: Seq<char>) -> bool {
    ||| contains(d, "e1000"@)
    ||| contains(d, "igb"@)
    ||| contains(d, "ixgbe"@)
    ||| contains(d, "mlx"@)
    ||| contains(d, "r8169"@)
    ||| contains(d, "iwlwifi"@)
    ||| contains(d, "ath"@)
    ||| contains(d, "rtl"@)
    ||| contains(d, "mt76"@)
}

/// An interface whose name begins with `wg`, or that has a `device/type`
/// entry, may be a WireGuard interface.
pub open spec fn may_be_wireguard(name: Seq<char>, device_type_exists: bool) -> bool {
    starts_with(name, "wg"@) || device_type_exists
}

/// The kind of an interface, from its name and what the system shows of
/// it.
pub open spec fn interface_type_of(
    name: Seq<char>,
    device_type_exists: bool,
    uevent: Option<Seq<char>>,
    wg_show_ok: bool,
    bridge_exists: bool,
    device_link: Option<Seq<char>>,
    driver: Option<Seq<char>>,
) -> InterfaceType {
    if name == "lo"@ {
        InterfaceType::Loopback
    } else if may_be_wireguard(name, device_type_exists) && ((uevent matches Some(u) && contains(
        u,
        "wireguard"@,
    )) || wg_show_ok) {
        InterfaceType::WireGuard
    } else if starts_with(name, "tun"@) || starts_with(name, "tap"@) {
        InterfaceType::OpenVPN
    } else if starts_with(name, "ppp"@) {
        InterfaceType::PPP
    } else if bridge_exists || starts_with(name, "br"@) {
        InterfaceType::Bridge
    } else if starts_with(name, "veth"@) || starts_with(name, "docker"@) || starts_with(
        name,
        "virbr"@,
    ) || starts_with(name, "vnet"@) {
        InterfaceType::Virtual
    } else if device_link matches Some(l) && (contains(l, "/pci"@) || contains(l, "/usb"@)) {
        InterfaceType::Physical
    } else if driver matches Some(d) && physical_driver(d) {
        InterfaceType::Physical
    } else {
        InterfaceType::Unknown
    }
}

/// The kind of interface that `p` shows for `name`.
pub open spec fn probe_type(name: Seq<char>, p: InterfaceProbe) -> InterfaceType {
    interface_type_of(
        name,
        p.device_type_exists,
        opt_str(p.uevent),
        p.wg_show_ok,
        p.bridge_exists,
        opt_str(p.device_link),
        opt_str(p.driver),
    )
}

impl VpnBackend {
    /// Whether an interface may be a WireGuard one, so that its `uevent`
    /// and `wg show` are worth reading.
    pub fn may_be_wireguard(name: &str, device_type_exists: bool) -> (r: bool)
        ensures
            r == may_be_wireguard(name@, device_type_exists),
    {
        starts_with_str(chars_of(name).as_slice(), "wg") || device_type_exists
    }

    /// The kind of an interface, from its name and what the system shows of
    /// it.
    pub fn classify_interface(&self, name: &str, probe: &InterfaceProbe) -> (r: InterfaceType)
        ensures
            r == probe_type(name@, *probe),
    {
        let n = chars_of(name);
        let n = n.as_slice();
        if eq_str(n, "lo") {
            return InterfaceType::Loopback;
        }
        if Self::may_be_wireguard(name, probe.device_type_exists) {
            let by_uevent = match &probe.uevent {
                Some(u) => contains_str(chars_of(u.as_str()).as_slice(), "wireguard"),
                None => false,
            };
            if by_uevent || probe.wg_show_ok {
                return InterfaceType::WireGuard;
            }
        }
        if starts_with_str(n, "tun") || starts_with_str(n, "tap") {
            return InterfaceType::OpenVPN;
        }
        if starts_with_str(n, "ppp") {
            return InterfaceType::PPP;
        }
        if probe.bridge_exists || starts_with_str(n, "br") {
            return InterfaceType::Bridge;
        }
        if starts_with_str(n, "veth") || starts_with_str(n, "docker") || starts_with_str(n, "virbr")
            || starts_with_str(n, "vnet") {
            return InterfaceType::Virtual;
        }
        if let Some(l) = &probe.device_link {
            let l = chars_of(l.as_str());
            if contains_str(l.as_slice(), "/pci") || contains_str(l.as_slice(), "/usb") {
                return InterfaceType::Physical;
            }
        }
        if let Some(d) = &probe.driver {
            let d = chars_of(d.as_str());
            let d = d.as_slice();
            if contains_str(d, "e1000") || contains_str(d, "igb") || contains_str(d, "ixgbe")
                || contains_str(d, "mlx") || contains_str(d, "r8169") || contains_str(d, "iwlwifi")
                || contains_str(d, "ath") || contains_str(d, "rtl") || contains_str(d, "mt76") {
                return InterfaceType::Physical;
            }
        }
        InterfaceType::Unknown
    }
}

/// The addresses that the output of `ip -o addr show` lists: each word
/// after `inet` goes to the first list, each word after `inet6` that is not
/// link-local to the second.
pub open spec fn addresses_in(w: Seq<Seq<char>>, i: int) -> (Seq<Seq<char>>, Seq<Seq<char>>)
    decreases i,
{
    if i <= 0 || i > w.len() {
        (Seq::<Seq<char>>::empty(), Seq::<Seq<char>>::empty())
    } else {
        let prev = addresses_in(w, i - 1);
        let k = i - 1;
        if w[k] == "inet"@ && k + 1 < w.len() {
            (prev.0.push(w[k + 1]), prev.1)
        } else if w[k] == "inet6"@ && k + 1 < w.len() && !starts_with(w[k + 1], "fe80:"@) {
            (prev.0, prev.1.push(w[k + 1]))
        } else {
            prev
        }
    }
}

/// The addresses of all the lines `ls`.
pub open spec fn addresses_of(ls: Seq<Seq<char>>) -> (Seq<Seq<char>>, Seq<Seq<char>>)
    decreases ls.len(),
{
    if ls.len() == 0 {
        (Seq::<Seq<char>>::empty(), Seq::<Seq<char>>::empty())
    } else {
        let prev = addresses_of(ls.drop_last());
        let w = words(ls.last());
        let a = addresses_in(w, w.len() as int);
        (prev.0 + a.0, prev.1 + a.1)
    }
}

impl VpnBackend {
    /// The IPv4 and IPv6 addresses that the output of `ip -o addr show`
    /// lists, link-local IPv6 addresses left out.
    pub fn get_interface_addresses(ip_output: &str) -> (r: (Vec<String>, Vec<String>))
        ensures
            (string_views(r.0@), string_views(r.1@)) == addresses_of(lines(ip_output@)),
    {
        let ls = lines_of(chars_of(ip_output).as_slice());
        let mut ipv4: Vec<String> = Vec::new();
        let mut ipv6: Vec<String> = Vec::new();
        let mut i: usize = 0;
        assert(string_views(ipv4@) =~= Seq::<Seq<char>>::empty());
        assert(string_views(ipv6@) =~= Seq::<Seq<char>>::empty());
        assert(views(ls@).take(0) =~= Seq::<Seq<char>>::empty());
        while i < ls.len()
            invariant
                i <= ls@.len(),
                views(ls@) == lines(ip_output@),
                (string_views(ipv4@), string_views(ipv6@)) == addresses_of(
                    views(ls@).take(i as int),
                ),
            decreases ls@.len() - i,
        {
            assert(views(ls@).take(i + 1).drop_last() =~= views(ls@).take(i as int));
            assert(views(ls@)[i as int] == ls@[i as int]@);
            let parts = split_ws(ls[i].as_slice());
            let ghost w = views(parts@);
            let ghost v4_0 = string_views(ipv4@);
            let ghost v6_0 = string_views(ipv6@);
            let mut k: usize = 0;
            while k < parts.len()
                invariant
                    k <= parts@.len(),
                    w == views(parts@),
                    string_views(ipv4@) == v4_0 + addresses_in(w, k as int).0,
                    string_views(ipv6@) == v6_0 + addresses_in(w, k as int).1,
                decreases parts@.len() - k,
            {
                assert(w[k as int] == parts@[k as int]@);
                let part = parts[k].as_slice();
                if eq_str(part, "inet") && k + 1 < parts.len() {
                    assert(w[k + 1] == parts@[k + 1]@);
                    let ghost before = ipv4@;
                    let a = string_of(parts[k + 1].as_slice());
                    ipv4.push(a);
                    assert(string_views(ipv4@) =~= string_views(before).push(a@));
                    assert(string_views(ipv4@) =~= v4_0 + addresses_in(w, k + 1).0);
                } else if eq_str(part, "inet6") && k + 1 < parts.len() {
                    assert(w[k + 1] == parts@[k + 1]@);
                    if !starts_with_str(parts[k + 1].as_slice(), "fe80:") {
                        let ghost before = ipv6@;
                        let a = string_of(parts[k + 1].as_slice());
                        ipv6.push(a);
                        assert(string_views(ipv6@) =~= string_views(before).push(a@));
                        assert(string_views(ipv6@) =~= v6_0 + addresses_in(w, k + 1).1);
                    }
                }
                k = k + 1;
            }
            i = i + 1;
        }
        assert(views(ls@).take(i as int) =~= views(ls@));
        (ipv4, ipv6)
    }
}

/// What the system shows of an interface: its name, the probe that
/// classifies it, its `operstate` and `mtu` files, and the output of
/// `ip -o addr show` for it.
#[derive(Debug)]
pub struct InterfaceEntry {
    pub name: String,
    pub probe: InterfaceProbe,
    pub operstate: Option<String>,
    pub mtu: Option<String>,
    pub addresses: String,
}

/// Interfaces of these kinds are VPN interfaces.
pub open spec fn is_vpn_type(t: InterfaceType) -> bool {
    t == InterfaceType::WireGuard || t == InterfaceType::OpenVPN || t == InterfaceType::PPP
}

/// The counters of an interface that `/proc/net/dev` does not list.
pub open spec fn no_stats() -> DevStats {
    DevStats {
        rx_bytes: 0,
        rx_packets: 0,
        rx_errors: 0,
        rx_dropped: 0,
        tx_bytes: 0,
        tx_packets: 0,
        tx_errors: 0,
        tx_dropped: 0,
    }
}

/// The interface that an entry and the lines of `/proc/net/dev` describe.
pub open spec fn interface_of(e: InterfaceEntry, d: Seq<(Seq<char>, DevStats)>) -> NetIfView {
    let t = probe_type(e.name@, e.probe);
    let st = match stats_for(d, e.name@) {
        Some(x) => x,
        None => no_stats(),
    };
    let a = addresses_of(lines(e.addresses@));
    NetIfView {
        name: e.name@,
        iface_type: t,
        is_vpn: is_vpn_type(t),
        is_up: match opt_str(e.operstate) {
            Some(x) => trim(x) == "up"@ || trim(x) == "unknown"@,
            None => false,
        },
        mtu: match opt_str(e.mtu) {
            Some(x) => match parse_unsigned(trim(x), 10, u32::MAX as nat) {
                Some(v) => v as u32,
                None => 0,
            },
            None => 0,
        },
        ipv4_addrs: a.0,
        ipv6_addrs: a.1,
        rx_bytes: st.rx_bytes,
        tx_bytes: st.tx_bytes,
        rx_packets: st.rx_packets,
        tx_packets: st.tx_packets,
        rx_errors: st.rx_errors,
        tx_errors: st.tx_errors,
        rx_dropped: st.rx_dropped,
        tx_dropped: st.tx_dropped,
    }
}

/// The interfaces of the entries, in their order.
pub open spec fn interfaces_of(es: Seq<InterfaceEntry>, d: Seq<(Seq<char>, DevStats)>) -> Seq<
    NetIfView,
> {
    es.map_values(|e: InterfaceEntry| interface_of(e, d))
}

impl VpnBackend {
    /// The interfaces, sorted by name, that the entries and the content of
    /// `/proc/net/dev` describe.
    pub fn get_interfaces(&self, net_dev: &str, entries: &[InterfaceEntry]) -> (r: Vec<
        NetworkInterface,
    >)
        ensures
            iface_views(r@) == sort_by_key::<NetworkInterface>(
                interfaces_of(entries@, dev_lines_of(lines(net_dev@))),
            ),
    {
        let stats = Self::parse_net_dev(net_dev);
        let ghost d = dev_lines_of(lines(net_dev@));
        let mut interfaces: Vec<NetworkInterface> = Vec::new();
        let mut i: usize = 0;
        while i < entries.len()
            invariant
                i <= entries@.len(),
                dev_views(stats@) == d,
                iface_views(interfaces@) == interfaces_of(entries@, d).take(i as int),
            decreases entries@.len() - i,
        {
            let e = &entries[i];
            let iface_type = self.classify_interface(e.name.as_str(), &e.probe);
            let is_vpn = iface_type == InterfaceType::WireGuard || iface_type
                == InterfaceType::OpenVPN || iface_type == InterfaceType::PPP;
            let is_up = match &e.operstate {
                Some(x) => {
                    let t = trimmed(chars_of(x.as_str()).as_slice());
                    eq_str(t.as_slice(), "up") || eq_str(t.as_slice(), "unknown")
                },
                None => false,
            };
            let mtu = match &e.mtu {
                Some(x) => {
                    let t = trimmed(chars_of(x.as_str()).as_slice());
                    match parse_uint(t.as_slice(), 10, 0xffff_ffff) {
                        Some(v) => v as u32,
                        None => 0,
                    }
                },
                None => 0,
            };
            let (ipv4_addrs, ipv6_addrs) = Self::get_interface_addresses(e.addresses.as_str());
            let n = chars_of(e.name.as_str());
            let st = match stats_for_exec(&stats, n.as_slice()) {
                Some(x) => x,
                None => DevStats {
                    rx_bytes: 0,
                    rx_packets: 0,
                    rx_errors: 0,
                    rx_dropped: 0,
                    tx_bytes: 0,
                    tx_packets: 0,
                    tx_errors: 0,
                    tx_dropped: 0,
                },
            };
            let iface = NetworkInterface {
                name: e.name.clone(),
                iface_type,
                is_vpn,
                is_up,
                mtu,
                ipv4_addrs,
                ipv6_addrs,
                rx_bytes: st.rx_bytes,
                tx_bytes: st.tx_bytes,
                rx_packets: st.rx_packets,
                tx_packets: st.tx_packets,
                rx_errors: st.rx_errors,
                tx_errors: st.tx_errors,
                rx_dropped: st.rx_dropped,
                tx_dropped: st.tx_dropped,
            };
            assert(iface@ == interface_of(entries@[i as int], d));
            let ghost before = interfaces@;
            interfaces.push(iface);
            assert(iface_views(interfaces@) =~= iface_views(before).push(iface@));
            assert(interfaces_of(entries@, d).take(i + 1) =~= interfaces_of(entries@, d).take(
                i as int,
            ).push(interface_of(entries@[i as int], d)));
            i = i + 1;
        }
        assert(interfaces_of(entries@, d).take(i as int) =~= interfaces_of(entries@, d));
        stable_sort(interfaces)
    }
}

// Active Connections

#[derive(Debug, Clone, Copy, PartialEq, Eq, Structural)]
pub enum ConnectionProtocol {
    Tcp,
    Udp,
    Tcp6,
    Udp6,
}

#[derive(Debug, Clone, Copy, PartialEq, Eq, Structural)]
pub enum ConnectionState {
    Established,
    SynSent,
    SynRecv,
    FinWait1,
    FinWait2,
    TimeWait,
    Close,
    CloseWait,
    LastAck,
    Listen,
    Closing,
    Unknown,
}

#[derive(Debug)]
pub struct ActiveConnection {
    pub protocol: ConnectionProtocol,
    pub local_addr: IpAddress,
    pub local_port: u16,
    pub remote_addr: IpAddress,
    pub remote_port: u16,
    pub state: ConnectionState,
    pub inode: u64,
    pub pid: Option<u32>,
    pub process_name: Option<String>,
    pub interface_hint: Option<String>,
    pub via_vpn: Option<bool>,
}

/// The state that the hexadecimal state field of `/proc/net/tcp` gives.
pub open spec fn connection_state_of(code: nat) -> ConnectionState {
    if code == 1 {
        ConnectionState::Established
    } else if code == 2 {
        ConnectionState::SynSent
    } else if code == 3 {
        ConnectionState::SynRecv
    } else if code == 4 {
        ConnectionState::FinWait1
    } else if code == 5 {
        ConnectionState::FinWait2
    } else if code == 6 {
        ConnectionState::TimeWait
    } else if code == 7 {
        ConnectionState::Close
    } else if code == 8 {
        ConnectionState::CloseWait
    } else if code == 9 {
        ConnectionState::LastAck
    } else if code == 10 {
        ConnectionState::Listen
    } else if code == 11 {
        ConnectionState::Closing
    } else {
        ConnectionState::Unknown
    }
}

/// The inode of a socket that a file descriptor link such as
/// `socket:[12345]` names.
pub open spec fn socket_inode_of(link: Seq<char>) -> Option<u64> {
    if starts_with(link, "socket:["@) && link.len() > 8 && link.last() == ']' {
        match parse_unsigned(link.subrange(8, link.len() - 1), 10, u64::MAX as nat) {
            Some(v) => Some(v as u64),
            None => None,
        }
    } else {
        None
    }
}

impl VpnBackend {
    /// The state that the hexadecimal state field of `/proc/net/tcp` names;
    /// a field that is not a hexadecimal byte counts as 0.
    pub fn connection_state(field: &str) -> (r: ConnectionState)
        ensures
            r == connection_state_of(
                match parse_unsigned(field@, 16, u8::MAX as nat) {
                    Some(v) => v,
                    None => 0,
                },
            ),
    {
        let code = match parse_uint(chars_of(field).as_slice(), 16, 0xff) {
            Some(v) => v,
            None => 0,
        };
        if code == 1 {
            ConnectionState::Established
        } else if code == 2 {
            ConnectionState::SynSent
        } else if code == 3 {
            ConnectionState::SynRecv
        } else if code == 4 {
            ConnectionState::FinWait1
        } else if code == 5 {
            ConnectionState::FinWait2
        } else if code == 6 {
            ConnectionState::TimeWait
        } else if code == 7 {
            ConnectionState::Close
        } else if code == 8 {
            ConnectionState::CloseWait
        } else if code == 9 {
            ConnectionState::LastAck
        } else if code == 10 {
            ConnectionState::Listen
        } else if code == 11 {
            ConnectionState::Closing
        } else {
            ConnectionState::Unknown
        }
    }

    /// The inode of a socket that a file descriptor link such as
    /// `socket:[12345]` names.
    pub fn socket_inode(link: &str) -> (r: Option<u64>)
        ensures
            r == socket_inode_of(link@),
    {
        let l = chars_of(link);
        proof {
            reveal_strlit("socket:[");
        }
        if !starts_with_str(l.as_slice(), "socket:[") || l.len() <= 8 || l[l.len() - 1] != ']' {
            return None;
        }
        let digits = slice_of(l.as_slice(), 8, l.len() - 1);
        parse_uint(digits.as_slice(), 10, 0xffff_ffff_ffff_ffff)
    }
}

// DNS State

/// The text between the first `(` and the first `)` of a line, when the
/// line has both.
pub open spec fn parenthesised(t: Seq<char>) -> Option<Seq<char>> {
    match (find_char(t, '('), find_char(t, ')')) {
        (Some(a), Some(b)) => Some(t.subrange(a + 1, b)),
        _ => None,
    }
}

/// No line has its first `)` before its first `(`: the interface names in
/// the output of `resolvectl status` can be cut out.
pub open spec fn dns_text_ok(ls: Seq<Seq<char>>) -> bool {
    forall|k: int|
        0 <= k < ls.len() ==> match (find_char(trim(#[trigger] ls[k]), '('), find_char(trim(ls[k]), ')')) {
            (Some(a), Some(b)) => a < b,
            _ => true,
        }
}

/// The DNS servers read so far, whether one belongs to a VPN interface,
/// and the interface whose section is being read.
pub struct DnsScan {
    pub servers: Seq<Seq<char>>,
    pub via_vpn: bool,
    pub interface: Seq<char>,
}

/// The scan after one more line of `resolvectl status`.
pub open spec fn dns_scan_line(st: DnsScan, line: Seq<char>, vpn: Seq<Seq<char>>) -> DnsScan {
    let t = trim(line);
    if starts_with(t, "Link "@) || (contains(t, "("@) && contains(t, ")"@)) {
        match parenthesised(t) {
            Some(i) => DnsScan { interface: i, ..st },
            None => st,
        }
    } else if starts_with(t, "DNS Servers:"@) || starts_with(t, "Current DNS Server:"@) {
        let server = trim(split(t, ':')[1]);
        if server.len() > 0 {
            DnsScan {
                servers: st.servers.push(server),
                via_vpn: st.via_vpn || vpn.contains(st.interface),
                ..st
            }
        } else {
            st
        }
    } else {
        st
    }
}

/// The scan after the lines `ls`.
pub open spec fn dns_scan(ls: Seq<Seq<char>>, vpn: Seq<Seq<char>>) -> DnsScan
    decreases ls.len(),
{
    if ls.len() == 0 {
        DnsScan { servers: Seq::<Seq<char>>::empty(), via_vpn: false, interface: Seq::<char>::empty() }
    } else {
        dns_scan_line(dns_scan(ls.drop_last(), vpn), ls.last(), vpn)
    }
}

/// The name servers of the lines `ls` of `/etc/resolv.conf`.
pub open spec fn nameservers(ls: Seq<Seq<char>>) -> Seq<Seq<char>>
    decreases ls.len(),
{
    if ls.len() == 0 {
        Seq::<Seq<char>>::empty()
    } else {
        let prev = nameservers(ls.drop_last());
        let l = ls.last();
        if starts_with(l, "nameserver"@) && words(l).len() > 1 {
            prev.push(words(l)[1])
        } else {
            prev
        }
    }
}

/// The DNS servers and whether one of them is reached through a VPN
/// interface: from `resolvectl status`, or, when it lists none, from
/// `/etc/resolv.conf`.
pub open spec fn dns_state_of(resolvectl: Seq<char>, resolv_conf: Option<Seq<char>>, vpn: Seq<Seq<char>>) -> (
    Seq<Seq<char>>,
    bool,
) {
    let st = dns_scan(lines(resolvectl), vpn);
    if st.servers.len() == 0 {
        (
            match resolv_conf {
                Some(c) => nameservers(lines(c)),
                None => Seq::<Seq<char>>::empty(),
            },
            st.via_vpn,
        )
    } else {
        (st.servers, st.via_vpn)
    }
}

impl VpnBackend {
    /// The DNS servers and whether one of them is reached through a VPN
    /// interface, from the output of `resolvectl status` or else the content
    /// of `/etc/resolv.conf`.
    pub fn get_dns_state(&self, resolvectl: &str, resolv_conf: Option<&str>, vpn_interfaces: &[String]) -> (r: (
        Vec<String>,
        bool,
    ))
        requires
            dns_text_ok(lines(resolvectl@)),
        ensures
            (string_views(r.0@), r.1) == dns_state_of(
                resolvectl@,
                match resolv_conf {
                    Some(c) => Some(c@),
                    None => None,
                },
                string_views(vpn_interfaces@),
            ),
    {
        let ghost vpn = string_views(vpn_interfaces@);
        let ls = lines_of(chars_of(resolvectl).as_slice());
        let mut servers: Vec<String> = Vec::new();
        let mut via_vpn = false;
        let mut current: Vec<char> = Vec::new();
        let mut i: usize = 0;
        assert(views(ls@).take(0) =~= Seq::<Seq<char>>::empty());
        assert(string_views(servers@) =~= Seq::<Seq<char>>::empty());
        while i < ls.len()
            invariant
                i <= ls@.len(),
                views(ls@) == lines(resolvectl@),
                dns_text_ok(views(ls@)),
                vpn == string_views(vpn_interfaces@),
                dns_scan(views(ls@).take(i as int), vpn) == (DnsScan {
                    servers: string_views(servers@),
                    via_vpn,
                    interface: current@,
                }),
            decreases ls@.len() - i,
        {
            assert(views(ls@).take(i + 1).drop_last() =~= views(ls@).take(i as int));
            assert(views(ls@)[i as int] == ls@[i as int]@);
            let t = trimmed(ls[i].as_slice());
            let t = t.as_slice();
            if starts_with_str(t, "Link ") || (contains_str(t, "(") && contains_str(t, ")")) {
                match (find_char_exec(t, '('), find_char_exec(t, ')')) {
                    (Some(a), Some(b)) => {
                        assert(trim(views(ls@)[i as int]) == t@);
                        assert(is_first(t@, '(', a as int));
                        assert(is_first(t@, ')', b as int));
                        assert(match (find_char(trim(views(ls@)[i as int]), '('), find_char(trim(views(ls@)[i as int]), ')')) {
                            (Some(x), Some(y)) => x < y,
                            _ => true,
                        });
                        current = slice_of(t, a + 1, b);
                    },
                    _ => {},
                }
            } else if starts_with_str(t, "DNS Servers:") || starts_with_str(t, "Current DNS Server:") {
                proof {
                    reveal_strlit("DNS Servers:");
                    reveal_strlit("Current DNS Server:");
                    if starts_with(t@, "DNS Servers:"@) {
                        assert(t@[11] == "DNS Servers:"@[11]);
                        lemma_split_at_sep(t@, ':', 11);
                    } else {
                        assert(t@[18] == "Current DNS Server:"@[18]);
                        lemma_split_at_sep(t@, ':', 18);
                    }
                }
                let pieces = split_on(t, ':');
                assert(views(pieces@)[1] == pieces@[1]@);
                let server = trimmed(pieces[1].as_slice());
                if server.len() > 0 {
                    let ghost before = servers@;
                    let sv = string_of(server.as_slice());
                    servers.push(sv);
                    assert(string_views(servers@) =~= string_views(before).push(server@));
                    if contains_string(vpn_interfaces, current.as_slice()) {
                        via_vpn = true;
                    }
                }
            }
            i = i + 1;
        }
        assert(views(ls@).take(i as int) =~= views(ls@));
        if servers.len() == 0 {
            if let Some(c) = resolv_conf {
                let cl = lines_of(chars_of(c).as_slice());
                let mut k: usize = 0;
                assert(views(cl@).take(0) =~= Seq::<Seq<char>>::empty());
                while k < cl.len()
                    invariant
                        k <= cl@.len(),
                        views(cl@) == lines(c@),
                        string_views(servers@) == nameservers(views(cl@).take(k as int)),
                    decreases cl@.len() - k,
                {
                    assert(views(cl@).take(k + 1).drop_last() =~= views(cl@).take(k as int));
                    assert(views(cl@)[k as int] == cl@[k as int]@);
                    let l = cl[k].as_slice();
                    if starts_with_str(l, "nameserver") {
                        let w = split_ws(l);
                        if w.len() > 1 {
                            assert(views(w@)[1] == w@[1]@);
                            let ghost before = servers@;
                            let sv = string_of(w[1].as_slice());
                            servers.push(sv);
                            assert(string_views(servers@) =~= string_views(before).push(w@[1]@));
                        }
                    }
                    k = k + 1;
                }
                assert(views(cl@).take(k as int) =~= views(cl@));
            }
        }
        (servers, via_vpn)
    }
}


} // verus!
