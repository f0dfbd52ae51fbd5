//! Active connections: the sockets of the kernel's connection tables, the
//! processes that own them, and the route each one's traffic takes.
//!
//! Addresses are kept as numbers: the program reads and writes their text
//! form, and hands the library the networks of the routing table as numbers.
use vstd::prelude::*;
use vstd::arithmetic::power2::pow2;
use std::collections::HashMap;
use crate::order::{lemma_text_order, sort_by_key, stable_sort, text_lt, text_lt_exec, views_of, SortKey};
use crate::text::{
    all_ascii, all_ascii_exec, byte_len, byte_len_at_least, chars_of, is_boundary, lines,
    lines_of, parse_uint, parse_unsigned, slice_of, split, split_on, split_ws, string_of, trim,
    trimmed, views, words,
};
use crate::vpn::{
    connection_state_of, opt_str, socket_inode_of, ActiveConnection, ConnectionProtocol,
    ConnectionState, RouteScope, RouteView, RoutingTable, RoutingTableView, VpnBackend,
};

verus! {

/// An IP address, by the number that its bits make, most significant first.
#[derive(Debug, Clone, Copy, PartialEq, Eq, Structural)]
pub enum IpAddress {
    V4(u32),
    V6(u128),
}

/// The number of bits of an address of this family.
pub open spec fn width(a: IpAddress) -> nat {
    match a {
        IpAddress::V4(_) => 32,
        IpAddress::V6(_) => 128,
    }
}

/// Whether two addresses are of one family.
pub open spec fn same_family(a: IpAddress, b: IpAddress) -> bool {
    match (a, b) {
        (IpAddress::V4(_), IpAddress::V4(_)) => true,
        (IpAddress::V6(_), IpAddress::V6(_)) => true,
        _ => false,
    }
}

/// The unspecified address of the family of `a`.
pub open spec fn unspecified_like(a: IpAddress) -> IpAddress {
    match a {
        IpAddress::V4(_) => IpAddress::V4(0),
        IpAddress::V6(_) => IpAddress::V6(0),
    }
}

/// `b` with its four bytes in reverse order.
pub open spec fn swap32(b: u32) -> u32 {
    ((b % 256) * 0x100_0000 + ((b / 256) % 256) * 0x1_0000 + ((b / 0x1_0000) % 256) * 256 + b
        / 0x100_0000) as u32
}

/// The address whose four 32-bit words are `a`, `b`, `c` and `d` with their
/// bytes reversed, most significant first.
pub open spec fn v6_words(a: u32, b: u32, c: u32, d: u32) -> u128 {
    (swap32(a) as int * 0x1_0000_0000_0000_0000_0000_0000 + swap32(b) as int
        * 0x1_0000_0000_0000_0000 + swap32(c) as int * 0x1_0000_0000 + swap32(d) as int) as u128
}

/// The 32-bit word that the `i`-th eight hexadecimal digits of `s` give.
pub open spec fn hex_word(s: Seq<char>, i: int) -> Option<nat> {
    parse_unsigned(s.subrange(8 * i, 8 * i + 8), 16, u32::MAX as nat)
}

/// The address that the address part of a line of a connection table
/// gives: a byte-reversed 32-bit word for IPv4, four of them for IPv6.
pub open spec fn hex_ip_of(a: Seq<char>, protocol: ConnectionProtocol) -> Option<IpAddress> {
    match protocol {
        ConnectionProtocol::Tcp | ConnectionProtocol::Udp => match parse_unsigned(
            a,
            16,
            u32::MAX as nat,
        ) {
            Some(b) => Some(IpAddress::V4(swap32(b as u32))),
            None => None,
        },
        _ => if byte_len(a) != 32 || !all_ascii(a) {
            None
        } else {
            match (hex_word(a, 0), hex_word(a, 1), hex_word(a, 2), hex_word(a, 3)) {
                (Some(w0), Some(w1), Some(w2), Some(w3)) => Some(
                    IpAddress::V6(v6_words(w0 as u32, w1 as u32, w2 as u32, w3 as u32)),
                ),
                _ => None,
            }
        },
    }
}

/// The address and port that an `ADDRESS:PORT` field of a connection table
/// gives, both in hexadecimal.
pub open spec fn hex_addr_of(hex: Seq<char>, protocol: ConnectionProtocol) -> Option<(IpAddress, u16)> {
    let p = split(hex, ':');
    if p.len() != 2 {
        None
    } else {
        match parse_unsigned(p[1], 16, u16::MAX as nat) {
            Some(port) => match hex_ip_of(p[0], protocol) {
                Some(ip) => Some((ip, port as u16)),
                None => None,
            },
            None => None,
        }
    }
}

/// The IPv6 address part can be cut into its four words at character
/// boundaries (it always can when it is ASCII).
pub open spec fn hex_slices_ok(hex: Seq<char>, protocol: ConnectionProtocol) -> bool {
    let p = split(hex, ':');
    (p.len() == 2 && parse_unsigned(p[1], 16, u16::MAX as nat) is Some && (protocol
        == ConnectionProtocol::Tcp6 || protocol == ConnectionProtocol::Udp6) && byte_len(p[0])
        == 32) ==> is_boundary(p[0], 8) && is_boundary(p[0], 16) && is_boundary(p[0], 24)
}

/// Whether the leading `prefix_len` bits of `ip` are those of `network`;
/// addresses of two families never match.
pub open spec fn in_network(ip: IpAddress, network: IpAddress, prefix_len: u8) -> bool {
    match (ip, network) {
        (IpAddress::V4(a), IpAddress::V4(b)) => prefix_len == 0 || (a >> ((32 - prefix_len) as u32))
            == (b >> ((32 - prefix_len) as u32)),
        (IpAddress::V6(a), IpAddress::V6(b)) => prefix_len == 0 || (a >> ((128 - prefix_len) as u128))
            == (b >> ((128 - prefix_len) as u128)),
        _ => false,
    }
}

/// The prefix length with which a route matches `dest`: routes of the link
/// and host scopes never do, the default route matches every address with
/// prefix 0, any other by its network (`net`, the route's destination as a
/// network).
pub open spec fn route_match(r: RouteView, net: Option<(IpAddress, u8)>, dest: IpAddress) -> Option<u8> {
    if r.scope == RouteScope::Link || r.scope == RouteScope::Host {
        None
    } else {
        let n = if r.destination == "default"@ {
            Some((unspecified_like(dest), 0u8))
        } else {
            net
        };
        match n {
            Some((addr, p)) => if same_family(dest, addr) && in_network(dest, addr, p) {
                Some(p)
            } else {
                None
            },
            None => None,
        }
    }
}

/// The most specific route among the first `n` that matches `dest`: the
/// first of the longest prefix.
pub open spec fn best_route(
    rs: Seq<RouteView>,
    nets: Seq<Option<(IpAddress, u8)>>,
    dest: IpAddress,
    n: nat,
) -> Option<(int, u8)>
    decreases n,
{
    if n == 0 {
        None
    } else {
        let prev = best_route(rs, nets, dest, (n - 1) as nat);
        match route_match(rs[n - 1], nets[n - 1], dest) {
            Some(p) => match prev {
                Some((i, bp)) => if p > bp {
                    Some(((n - 1) as int, p))
                } else {
                    prev
                },
                None => Some(((n - 1) as int, p)),
            },
            None => prev,
        }
    }
}

/// The interface that traffic to `dest` leaves by and whether that is a VPN
/// route: the most specific matching route's, else the default interface.
pub open spec fn lookup_of(
    t: RoutingTableView,
    nets: Seq<Option<(IpAddress, u8)>>,
    dest: IpAddress,
) -> (Option<Seq<char>>, Option<bool>) {
    match best_route(t.routes, nets, dest, t.routes.len()) {
        Some((i, _)) => (Some(t.routes[i].interface), Some(t.routes[i].is_vpn_route)),
        None => (t.default_interface, Some(t.default_via_vpn)),
    }
}

/// The networks that the routes to `dest` are compared with fit the width
/// of their addresses.
pub open spec fn prefixes_fit(
    rs: Seq<RouteView>,
    nets: Seq<Option<(IpAddress, u8)>>,
    dest: IpAddress,
) -> bool {
    forall|i: int|
        0 <= i < rs.len() && rs[i].scope != RouteScope::Link && rs[i].scope != RouteScope::Host
            && rs[i].destination != "default"@ ==> match #[trigger] nets[i] {
            Some((a, p)) => same_family(dest, a) ==> p <= width(a),
            None => true,
        }
}

/// What an active connection holds.
pub struct ConnView {
    pub protocol: ConnectionProtocol,
    pub local_addr: IpAddress,
    pub local_port: u16,
    pub remote_addr: IpAddress,
    pub remote_port: u16,
    pub state: ConnectionState,
    pub inode: u64,
    pub pid: Option<u32>,
    pub process_name: Option<Seq<char>>,
    pub interface_hint: Option<Seq<char>>,
    pub via_vpn: Option<bool>,
}

impl View for ActiveConnection {
    type V = ConnView;

    open spec fn view(&self) -> ConnView {
        ConnView {
            protocol: self.protocol,
            local_addr: self.local_addr,
            local_port: self.local_port,
            remote_addr: self.remote_addr,
            remote_port: self.remote_port,
            state: self.state,
            inode: self.inode,
            pid: self.pid,
            process_name: opt_str(self.process_name),
            interface_hint: opt_str(self.interface_hint),
            via_vpn: self.via_vpn,
        }
    }
}

/// The process name by which connections are ordered: none counts as empty.
pub open spec fn name_key(c: ConnView) -> Seq<char> {
    match c.process_name {
        Some(n) => n,
        None => Seq::<char>::empty(),
    }
}

impl SortKey for ActiveConnection {
    /// Connections go by the name of their process.
    open spec fn precedes(a: ConnView, b: ConnView) -> bool {
        text_lt(name_key(a), name_key(b))
    }

    fn precedes_exec(&self, other: &Self) -> (r: bool) {
        let a = match &self.process_name {
            Some(n) => chars_of(n.as_str()),
            None => Vec::new(),
        };
        let b = match &other.process_name {
            Some(n) => chars_of(n.as_str()),
            None => Vec::new(),
        };
        text_lt_exec(a.as_slice(), b.as_slice())
    }

    proof fn lemma_strict_weak_order(a: ConnView, b: ConnView, c: ConnView) {
        lemma_text_order(name_key(a), name_key(b), name_key(c));
    }
}

/// The connection that a line of a connection table describes: its local
/// and remote address, its state, its socket's inode and owner, and the
/// route to its remote address.
pub open spec fn net_line_of(
    line: Seq<char>,
    protocol: ConnectionProtocol,
    owners: Map<u64, (u32, Seq<char>)>,
    t: RoutingTableView,
    nets: Seq<Option<(IpAddress, u8)>>,
) -> Option<ConnView> {
    let w = words(line);
    if w.len() < 10 {
        None
    } else {
        match parse_unsigned(w[9], 10, u64::MAX as nat) {
            Some(inode) => match hex_addr_of(w[1], protocol) {
                Some((la, lp)) => match hex_addr_of(w[2], protocol) {
                    Some((ra, rp)) => {
                        let owner = if owners.contains_key(inode as u64) {
                            Some(owners[inode as u64])
                        } else {
                            None
                        };
                        let route = lookup_of(t, nets, ra);
                        Some(
                            ConnView {
                                protocol,
                                local_addr: la,
                                local_port: lp,
                                remote_addr: ra,
                                remote_port: rp,
                                state: connection_state_of(
                                    match parse_unsigned(w[3], 16, u8::MAX as nat) {
                                        Some(v) => v,
                                        None => 0,
                                    },
                                ),
                                inode: inode as u64,
                                pid: match owner {
                                    Some(o) => Some(o.0),
                                    None => None,
                                },
                                process_name: match owner {
                                    Some(o) => Some(o.1),
                                    None => None,
                                },
                                interface_hint: route.0,
                                via_vpn: route.1,
                            },
                        )
                    },
                    None => None,
                },
                None => None,
            },
            None => None,
        }
    }
}

/// A line of a connection table can be read without a slice falling inside
/// a character, and the routes to its remote address fit.
pub open spec fn net_line_ok(
    line: Seq<char>,
    protocol: ConnectionProtocol,
    t: RoutingTableView,
    nets: Seq<Option<(IpAddress, u8)>>,
) -> bool {
    let w = words(line);
    (w.len() >= 10 && parse_unsigned(w[9], 10, u64::MAX as nat) is Some) ==> {
        &&& hex_slices_ok(w[1], protocol)
        &&& hex_addr_of(w[1], protocol) is Some ==> hex_slices_ok(w[2], protocol)
        &&& match hex_addr_of(w[2], protocol) {
            Some((ra, _)) => hex_addr_of(w[1], protocol) is Some ==> prefixes_fit(
                t.routes,
                nets,
                ra,
            ),
            None => true,
        }
    }
}

/// The connections of the lines of a table, in order.
pub open spec fn table_conns(
    ls: Seq<Seq<char>>,
    protocol: ConnectionProtocol,
    owners: Map<u64, (u32, Seq<char>)>,
    t: RoutingTableView,
    nets: Seq<Option<(IpAddress, u8)>>,
) -> Seq<ConnView>
    decreases ls.len(),
{
    if ls.len() == 0 {
        Seq::<ConnView>::empty()
    } else {
        let prev = table_conns(ls.drop_last(), protocol, owners, t, nets);
        match net_line_of(ls.last(), protocol, owners, t, nets) {
            Some(c) => prev.push(c),
            None => prev,
        }
    }
}

/// The lines of a table after its header; none when it could not be read.
pub open spec fn table_rows(content: Option<Seq<char>>) -> Seq<Seq<char>> {
    match content {
        Some(c) => if lines(c).len() > 0 {
            lines(c).skip(1)
        } else {
            Seq::<Seq<char>>::empty()
        },
        None => Seq::<Seq<char>>::empty(),
    }
}

/// Every line of a table can be read.
pub open spec fn table_ok(
    content: Option<Seq<char>>,
    protocol: ConnectionProtocol,
    t: RoutingTableView,
    nets: Seq<Option<(IpAddress, u8)>>,
) -> bool {
    forall|i: int|
        0 <= i < table_rows(content).len() ==> net_line_ok(
            #[trigger] table_rows(content)[i],
            protocol,
            t,
            nets,
        )
}

/// A connection worth showing: neither listening nor closed, with a remote
/// address that is not the unspecified one.
pub open spec fn is_live(c: ConnView) -> bool {
    c.state != ConnectionState::Listen && c.state != ConnectionState::Close && c.remote_addr
        != IpAddress::V4(0) && c.remote_addr != IpAddress::V6(0)
}

/// The live connections of `s`, in order.
pub open spec fn live(s: Seq<ConnView>) -> Seq<ConnView>
    decreases s.len(),
{
    if s.len() == 0 {
        s
    } else if is_live(s.last()) {
        live(s.drop_last()).push(s.last())
    } else {
        live(s.drop_last())
    }
}

/// What a directory of the process table gives: its name, the content of
/// its `comm` file, and the targets of the links in its `fd` directory when
/// that could be read.
#[derive(Debug, Clone)]
pub struct ProcEntry {
    pub name: String,
    pub comm: Option<String>,
    pub fd_links: Option<Vec<String>>,
}

/// The owners of sockets after the links of one process.
pub open spec fn owners_after_links(
    m: Map<u64, (u32, Seq<char>)>,
    links: Seq<Seq<char>>,
    pid: u32,
    name: Seq<char>,
) -> Map<u64, (u32, Seq<char>)>
    decreases links.len(),
{
    if links.len() == 0 {
        m
    } else {
        let prev = owners_after_links(m, links.drop_last(), pid, name);
        match socket_inode_of(links.last()) {
            Some(i) => prev.insert(i, (pid, name)),
            None => prev,
        }
    }
}

/// The owners of sockets that the process table gives: each socket link of
/// a process directory maps its inode to the process and its trimmed name,
/// a later link winning.
pub open spec fn owners_of(es: Seq<ProcEntry>) -> Map<u64, (u32, Seq<char>)>
    decreases es.len(),
{
    if es.len() == 0 {
        Map::<u64, (u32, Seq<char>)>::empty()
    } else {
        let prev = owners_of(es.drop_last());
        let e = es.last();
        match parse_unsigned(e.name@, 10, u32::MAX as nat) {
            Some(pid) => match e.fd_links {
                Some(ls) => owners_after_links(
                    prev,
                    views_of(ls@),
                    pid as u32,
                    match e.comm {
                        Some(c) => trim(c@),
                        None => Seq::<char>::empty(),
                    },
                ),
                None => prev,
            },
            None => prev,
        }
    }
}

/// Every ASCII character takes one byte.
proof fn lemma_ascii_byte_len(s: Seq<char>)
    requires
        all_ascii(s),
    ensures
        byte_len(s) == s.len(),
    decreases s.len(),
{
    if s.len() > 0 {
        assert(all_ascii(s.drop_last()));
        lemma_ascii_byte_len(s.drop_last());
    }
}

fn swap32_exec(b: u32) -> (r: u32)
    ensures
        r == swap32(b),
{
    let x = b as u64;
    let r = (x % 256) * 0x100_0000 + ((x / 256) % 256) * 0x1_0000 + ((x / 0x1_0000) % 256) * 256
        + x / 0x100_0000;
    r as u32
}

fn v6_exec(a: u32, b: u32, c: u32, d: u32) -> (r: u128)
    ensures
        r == v6_words(a, b, c, d),
{
    let sa = swap32_exec(a) as u128;
    let sb = swap32_exec(b) as u128;
    let sc = swap32_exec(c) as u128;
    let sd = swap32_exec(d) as u128;
    assert(sa * 0x1_0000_0000_0000_0000_0000_0000 <= 0xffff_ffff * 0x1_0000_0000_0000_0000_0000_0000)
        by (nonlinear_arith)
        requires
            sa <= 0xffff_ffff,
    ;
    assert(sb * 0x1_0000_0000_0000_0000 <= 0xffff_ffff * 0x1_0000_0000_0000_0000) by (nonlinear_arith)
        requires
            sb <= 0xffff_ffff,
    ;
    assert(sc * 0x1_0000_0000 <= 0xffff_ffff * 0x1_0000_0000) by (nonlinear_arith)
        requires
            sc <= 0xffff_ffff,
    ;
    sa * 0x1_0000_0000_0000_0000_0000_0000 + sb * 0x1_0000_0000_0000_0000 + sc * 0x1_0000_0000 + sd
}

impl VpnBackend {
    /// Rebuilds the map from socket inodes to their processes from the
    /// process table.
    pub fn refresh_inode_map(&mut self, entries: &[ProcEntry])
        ensures
            final(self).socket_owners() == owners_of(entries@),
            final(self).previous_counters() == old(self).previous_counters(),
    {
        broadcast use vstd::std_specs::hash::group_hash_axioms;

        let mut m: HashMap<u64, (u32, String)> = HashMap::new();
        let mut i: usize = 0;
        let n = entries.len();
        assert(entries@.take(0) =~= Seq::<ProcEntry>::empty());
        assert(m@.map_values(|v: (u32, String)| (v.0, v.1@)) =~= Map::<
            u64,
            (u32, Seq<char>),
        >::empty());
        while i < n
            invariant
                i <= n,
                n == entries@.len(),
                m@.map_values(|v: (u32, String)| (v.0, v.1@)) == owners_of(entries@.take(i as int)),
            decreases n - i,
        {
            assert(entries@.take(i + 1).drop_last() =~= entries@.take(i as int));
            let e = &entries[i];
            match parse_uint(chars_of(e.name.as_str()).as_slice(), 10, 0xffff_ffff) {
                Some(pid) => match &e.fd_links {
                    Some(links) => {
                        let name = match &e.comm {
                            Some(c) => string_of(trimmed(chars_of(c.as_str()).as_slice()).as_slice()),
                            None => String::new(),
                        };
                        let ghost name_v = name@;
                        let ghost start = m@.map_values(|v: (u32, String)| (v.0, v.1@));
                        let mut k: usize = 0;
                        assert(views_of(links@).take(0) =~= Seq::<Seq<char>>::empty());
                        while k < links.len()
                            invariant
                                k <= links@.len(),
                                name@ == name_v,
                                m@.map_values(|v: (u32, String)| (v.0, v.1@)) == owners_after_links(
                                    start,
                                    views_of(links@).take(k as int),
                                    pid as u32,
                                    name_v,
                                ),
                            decreases links@.len() - k,
                        {
                            assert(views_of(links@).take(k + 1).drop_last() =~= views_of(
                                links@,
                            ).take(k as int));
                            assert(views_of(links@)[k as int] == links@[k as int]@);
                            match VpnBackend::socket_inode(links[k].as_str()) {
                                Some(inode) => {
                                    let ghost before = m@;
                                    m.insert(inode, (pid as u32, name.clone()));
                                    assert(m@.map_values(|v: (u32, String)| (v.0, v.1@))
                                        =~= before.map_values(|v: (u32, String)| (v.0, v.1@)).insert(
                                        inode,
                                        (pid as u32, name_v),
                                    ));
                                },
                                None => {},
                            }
                            k = k + 1;
                        }
                        assert(views_of(links@).take(k as int) =~= views_of(links@));
                    },
                    None => {},
                },
                None => {},
            }
            i = i + 1;
        }
        assert(entries@.take(i as int) =~= entries@);
        self.set_socket_owners(m);
    }

    /// The address and port that an `ADDRESS:PORT` field of a connection
    /// table gives.
    pub fn parse_hex_addr(hex: &str, protocol: ConnectionProtocol) -> (r: Option<(IpAddress, u16)>)
        requires
            hex_slices_ok(hex@, protocol),
        ensures
            r == hex_addr_of(hex@, protocol),
    {
        let parts = split_on(chars_of(hex).as_slice(), ':');
        if parts.len() != 2 {
            return None;
        }
        assert(views(parts@)[0] == parts@[0]@);
        assert(views(parts@)[1] == parts@[1]@);
        let port = match parse_uint(parts[1].as_slice(), 16, 0xffff) {
            Some(p) => p as u16,
            None => {
                return None;
            },
        };
        let a = parts[0].as_slice();
        let ip = match protocol {
            ConnectionProtocol::Tcp | ConnectionProtocol::Udp => match parse_uint(
                a,
                16,
                0xffff_ffff,
            ) {
                Some(b) => IpAddress::V4(swap32_exec(b as u32)),
                None => {
                    return None;
                },
            },
            _ => {
                if !byte_len_at_least(a, 32) || byte_len_at_least(a, 33) || !all_ascii_exec(a) {
                    return None;
                }
                proof {
                    lemma_ascii_byte_len(a@);
                }
                let w0 = parse_uint(slice_of(a, 0, 8).as_slice(), 16, 0xffff_ffff);
                let w1 = parse_uint(slice_of(a, 8, 16).as_slice(), 16, 0xffff_ffff);
                let w2 = parse_uint(slice_of(a, 16, 24).as_slice(), 16, 0xffff_ffff);
                let w3 = parse_uint(slice_of(a, 24, 32).as_slice(), 16, 0xffff_ffff);
                match (w0, w1, w2, w3) {
                    (Some(x0), Some(x1), Some(x2), Some(x3)) => IpAddress::V6(
                        v6_exec(x0 as u32, x1 as u32, x2 as u32, x3 as u32),
                    ),
                    _ => {
                        return None;
                    },
                }
            },
        };
        Some((ip, port))
    }

    /// Whether the leading `prefix_len` bits of `ip` are those of
    /// `network`; addresses of two families never match.
    pub fn ip_in_network(ip: &IpAddress, network: &IpAddress, prefix_len: u8) -> (r: bool)
        requires
            same_family(*ip, *network) ==> prefix_len <= width(*network),
        ensures
            r == in_network(*ip, *network, prefix_len),
    {
        match (ip, network) {
            (IpAddress::V4(a), IpAddress::V4(b)) => {
                if prefix_len == 0 {
                    return true;
                }
                let s: u32 = (32 - prefix_len) as u32;
                let mask: u32 = !0u32 << s;
                let (a, b) = (*a, *b);
                assert(((a & mask) == (b & mask)) == ((a >> s) == (b >> s))) by (bit_vector)
                    requires
                        s < 32,
                        mask == !0u32 << s,
                ;
                (a & mask) == (b & mask)
            },
            (IpAddress::V6(a), IpAddress::V6(b)) => {
                if prefix_len == 0 {
                    return true;
                }
                let s: u128 = (128 - prefix_len) as u128;
                (*a >> s) == (*b >> s)
            },
            _ => false,
        }
    }

    /// The interface that traffic to `dest` leaves by, and whether that is
    /// a VPN route: the most specific matching route (the first of the
    /// longest prefix), else the default interface. `nets` holds the
    /// destination of each route as a network, where it is one.
    pub fn route_lookup(
        &self,
        dest: &IpAddress,
        routing: &RoutingTable,
        nets: &[Option<(IpAddress, u8)>],
    ) -> (r: (Option<String>, Option<bool>))
        requires
            nets@.len() == routing.routes@.len(),
            prefixes_fit(routing@.routes, nets@, *dest),
        ensures
            (opt_str(r.0), r.1) == lookup_of(routing@, nets@, *dest),
    {
        let ghost rs = routing@.routes;
        let mut best: Option<usize> = None;
        let mut best_prefix_len: u8 = 0;
        let mut i: usize = 0;
        let n = routing.routes.len();
        while i < n
            invariant
                i <= n,
                n == routing.routes@.len(),
                nets@.len() == n,
                rs == routing@.routes,
                prefixes_fit(rs, nets@, *dest),
                match best_route(rs, nets@, *dest, i as nat) {
                    Some((k, p)) => best == Some(k as usize) && best_prefix_len == p && 0 <= k < i,
                    None => best is None && best_prefix_len == 0,
                },
            decreases n - i,
        {
            let route = &routing.routes[i];
            assert(rs[i as int] == route@);
            let m: Option<u8> = if matches!(route.scope, RouteScope::Link)
                || matches!(route.scope, RouteScope::Host) {
                None
            } else {
                let is_default = crate::text::eq_str(
                    chars_of(route.destination.as_str()).as_slice(),
                    "default",
                );
                let net: Option<(IpAddress, u8)> = if is_default {
                    match dest {
                        IpAddress::V4(_) => Some((IpAddress::V4(0), 0)),
                        IpAddress::V6(_) => Some((IpAddress::V6(0), 0)),
                    }
                } else {
                    nets[i]
                };
                match net {
                    Some((addr, p)) => {
                        let fam = match (dest, &addr) {
                            (IpAddress::V4(_), IpAddress::V4(_)) => true,
                            (IpAddress::V6(_), IpAddress::V6(_)) => true,
                            _ => false,
                        };
                        if fam {
                            assert(!is_default ==> nets@[i as int] == Some((addr, p)));
                            if Self::ip_in_network(dest, &addr, p) {
                                Some(p)
                            } else {
                                None
                            }
                        } else {
                            None
                        }
                    },
                    None => None,
                }
            };
            assert(m == route_match(rs[i as int], nets@[i as int], *dest));
            match m {
                Some(p) => {
                    if best.is_none() || p > best_prefix_len {
                        best = Some(i);
                        best_prefix_len = p;
                    }
                },
                None => {},
            }
            i = i + 1;
        }
        let ghost br = best_route(rs, nets@, *dest, n as nat);
        match best {
            Some(k) => {
                assert(br matches Some((kk, _)) && kk == k as int && kk < n);
                assert(rs[k as int] == routing.routes@[k as int]@);
                (Some(routing.routes[k].interface.clone()), Some(routing.routes[k].is_vpn_route))
            },
            None => (
                match &routing.default_interface {
                    Some(s) => Some(s.clone()),
                    None => None,
                },
                Some(routing.default_via_vpn),
            ),
        }
    }

    /// The connection that a line of a connection table describes, with
    /// the owner of its socket and the route to its remote address.
    pub fn parse_proc_net_line(
        &self,
        line: &str,
        protocol: ConnectionProtocol,
        routing: &RoutingTable,
        nets: &[Option<(IpAddress, u8)>],
    ) -> (r: Option<ActiveConnection>)
        requires
            nets@.len() == routing.routes@.len(),
            net_line_ok(line@, protocol, routing@, nets@),
        ensures
            match net_line_of(line@, protocol, self.socket_owners(), routing@, nets@) {
                Some(c) => r matches Some(x) && x@ == c,
                None => r is None,
            },
    {
        broadcast use vstd::std_specs::hash::group_hash_axioms;

        let parts = split_ws(chars_of(line).as_slice());
        if parts.len() < 10 {
            return None;
        }
        assert(views(parts@)[1] == parts@[1]@);
        assert(views(parts@)[2] == parts@[2]@);
        assert(views(parts@)[3] == parts@[3]@);
        assert(views(parts@)[9] == parts@[9]@);
        let inode = match parse_uint(parts[9].as_slice(), 10, 0xffff_ffff_ffff_ffff) {
            Some(v) => v,
            None => {
                return None;
            },
        };
        let local = string_of(parts[1].as_slice());
        let (local_addr, local_port) = match Self::parse_hex_addr(local.as_str(), protocol) {
            Some(x) => x,
            None => {
                return None;
            },
        };
        let remote = string_of(parts[2].as_slice());
        let (remote_addr, remote_port) = match Self::parse_hex_addr(remote.as_str(), protocol) {
            Some(x) => x,
            None => {
                return None;
            },
        };
        let state = VpnBackend::connection_state(string_of(parts[3].as_slice()).as_str());
        let (pid, process_name) = match self.socket_owner(inode) {
            Some(v) => (Some(v.0), Some(v.1)),
            None => (None, None),
        };
        let (interface_hint, via_vpn) = self.route_lookup(&remote_addr, routing, nets);
        Some(
            ActiveConnection {
                protocol,
                local_addr,
                local_port,
                remote_addr,
                remote_port,
                state,
                inode,
                pid,
                process_name,
                interface_hint,
                via_vpn,
            },
        )
    }

    /// The connections of one table's lines after its header, appended to
    /// `out`.
    fn append_table(
        &self,
        out: &mut Vec<ActiveConnection>,
        content: Option<&str>,
        protocol: ConnectionProtocol,
        routing: &RoutingTable,
        nets: &[Option<(IpAddress, u8)>],
    )
        requires
            nets@.len() == routing.routes@.len(),
            table_ok(opt_text(content), protocol, routing@, nets@),
        ensures
            views_of(final(out)@) == views_of(old(out)@) + table_conns(
                table_rows(opt_text(content)),
                protocol,
                self.socket_owners(),
                routing@,
                nets@,
            ),
    {
        let ghost start = views_of(out@);
        let ghost rows = table_rows(opt_text(content));
        if let Some(c) = content {
            let ls = lines_of(chars_of(c).as_slice());
            assert(opt_text(content) == Some(c@));
            if ls.len() == 0 {
                assert(rows =~= Seq::<Seq<char>>::empty());
                assert(views_of(out@) =~= start + Seq::<ConnView>::empty());
                return;
            }
            assert(rows =~= views(ls@).skip(1));
            let mut i: usize = 1;
            assert(rows.take(0) =~= Seq::<Seq<char>>::empty());
            assert(views_of(out@) =~= start + Seq::<ConnView>::empty());
            while i < ls.len()
                invariant
                    1 <= i <= ls@.len(),
                    rows == views(ls@).skip(1),
                    rows == table_rows(opt_text(content)),
                    nets@.len() == routing.routes@.len(),
                    table_ok(opt_text(content), protocol, routing@, nets@),
                    views_of(out@) == start + table_conns(
                        rows.take(i - 1),
                        protocol,
                        self.socket_owners(),
                        routing@,
                        nets@,
                    ),
                decreases ls@.len() - i,
            {
                assert(rows.take(i as int).drop_last() =~= rows.take(i - 1));
                assert(rows[i - 1] == ls@[i as int]@);
                assert(net_line_ok(table_rows(opt_text(content))[i - 1], protocol, routing@, nets@));
                let line = string_of(ls[i].as_slice());
                match self.parse_proc_net_line(line.as_str(), protocol, routing, nets) {
                    Some(conn) => {
                        let ghost before = views_of(out@);
                        out.push(conn);
                        assert(views_of(out@) =~= before.push(conn@));
                    },
                    None => {},
                }
                i = i + 1;
            }
            assert(rows.take(i - 1) =~= rows);
        } else {
            assert(rows =~= Seq::<Seq<char>>::empty());
            assert(views_of(out@) =~= start + Seq::<ConnView>::empty());
        }
    }

    /// The live connections of the TCP, TCP6, UDP and UDP6 tables (each
    /// when it could be read), in table order and then by process name.
    pub fn get_active_connections(
        &self,
        tcp: Option<&str>,
        tcp6: Option<&str>,
        udp: Option<&str>,
        udp6: Option<&str>,
        routing: &RoutingTable,
        nets: &[Option<(IpAddress, u8)>],
    ) -> (r: Vec<ActiveConnection>)
        requires
            nets@.len() == routing.routes@.len(),
            table_ok(opt_text(tcp), ConnectionProtocol::Tcp, routing@, nets@),
            table_ok(opt_text(tcp6), ConnectionProtocol::Tcp6, routing@, nets@),
            table_ok(opt_text(udp), ConnectionProtocol::Udp, routing@, nets@),
            table_ok(opt_text(udp6), ConnectionProtocol::Udp6, routing@, nets@),
        ensures
            views_of(r@) == sort_by_key::<ActiveConnection>(
                live(
                    table_conns(
                        table_rows(opt_text(tcp)),
                        ConnectionProtocol::Tcp,
                        self.socket_owners(),
                        routing@,
                        nets@,
                    ) + table_conns(
                        table_rows(opt_text(tcp6)),
                        ConnectionProtocol::Tcp6,
                        self.socket_owners(),
                        routing@,
                        nets@,
                    ) + table_conns(
                        table_rows(opt_text(udp)),
                        ConnectionProtocol::Udp,
                        self.socket_owners(),
                        routing@,
                        nets@,
                    ) + table_conns(
                        table_rows(opt_text(udp6)),
                        ConnectionProtocol::Udp6,
                        self.socket_owners(),
                        routing@,
                        nets@,
                    ),
                ),
            ),
    {
        let mut all: Vec<ActiveConnection> = Vec::new();
        assert(views_of(all@) =~= Seq::<ConnView>::empty());
        self.append_table(&mut all, tcp, ConnectionProtocol::Tcp, routing, nets);
        self.append_table(&mut all, tcp6, ConnectionProtocol::Tcp6, routing, nets);
        self.append_table(&mut all, udp, ConnectionProtocol::Udp, routing, nets);
        self.append_table(&mut all, udp6, ConnectionProtocol::Udp6, routing, nets);
        let ghost every = views_of(all@);
        let mut kept: Vec<ActiveConnection> = Vec::new();
        let mut rest = all;
        let mut rev: Vec<ActiveConnection> = Vec::new();
        while rest.len() > 0
            invariant
                rest@.len() + rev@.len() == every.len(),
                views_of(rest@) == every.take(rest@.len() as int),
                forall|j: int| 0 <= j < rev@.len() ==> #[trigger] rev@[j]@ == every[every.len() - 1 - j],
            decreases rest@.len(),
        {
            let ghost n = rest@.len();
            assert(views_of(rest@)[n - 1] == rest@[n - 1]@);
            let e = rest.pop().unwrap();
            rev.push(e);
            assert(views_of(rest@) =~= every.take(rest@.len() as int));
        }
        assert(every.take(0) =~= Seq::<ConnView>::empty());
        assert(views_of(kept@) =~= Seq::<ConnView>::empty());
        while rev.len() > 0
            invariant
                rev@.len() <= every.len(),
                forall|j: int| 0 <= j < rev@.len() ==> #[trigger] rev@[j]@ == every[every.len() - 1 - j],
                views_of(kept@) == live(every.take(every.len() - rev@.len())),
            decreases rev@.len(),
        {
            let ghost k = every.len() - rev@.len();
            let c = rev.pop().unwrap();
            assert(c@ == every[k]);
            assert(every.take(k + 1).drop_last() =~= every.take(k));
            let unspecified = match c.remote_addr {
                IpAddress::V4(x) => x == 0,
                IpAddress::V6(x) => x == 0,
            };
            if !matches!(c.state, ConnectionState::Listen) && !matches!(c.state, ConnectionState::Close)
                && !unspecified {
                let ghost before = views_of(kept@);
                kept.push(c);
                assert(views_of(kept@) =~= before.push(every[k]));
            }
        }
        assert(every.take(every.len() as int) =~= every);
        stable_sort(kept)
    }
}

/// The view of an optional text.
pub open spec fn opt_text(o: Option<&str>) -> Option<Seq<char>> {
    match o {
        Some(s) => Some(s@),
        None => None,
    }
}

/// The route that a lookup picks is the most specific one: it matches the
/// address, no matching route has a longer prefix, and every matching route
/// before it has a shorter one. When none matches, none is picked.
pub proof fn law_route_lookup_most_specific(
    rs: Seq<RouteView>,
    nets: Seq<Option<(IpAddress, u8)>>,
    dest: IpAddress,
    n: nat,
)
    requires
        n <= rs.len(),
        n <= nets.len(),
    ensures
        match best_route(rs, nets, dest, n) {
            Some((i, p)) => {
                &&& 0 <= i < n
                &&& route_match(rs[i], nets[i], dest) == Some(p)
                &&& forall|j: int|
                    0 <= j < n ==> match #[trigger] route_match(rs[j], nets[j], dest) {
                        Some(q) => q <= p && (j < i ==> q < p),
                        None => true,
                    }
            },
            None => forall|j: int| 0 <= j < n ==> #[trigger] route_match(rs[j], nets[j], dest) is None,
        },
    decreases n,
{
    if n > 0 {
        law_route_lookup_most_specific(rs, nets, dest, (n - 1) as nat);
    }
}

/// A network contains the addresses of every network nested in it: when
/// the leading `p` bits of two addresses agree, so do the leading `q` for
/// any `q` up to `p`.
pub proof fn law_prefix_nesting(ip: IpAddress, network: IpAddress, p: u8, q: u8)
    requires
        q <= p,
        same_family(ip, network),
        p <= width(network),
        in_network(ip, network, p),
    ensures
        in_network(ip, network, q),
{
    match (ip, network) {
        (IpAddress::V4(a), IpAddress::V4(b)) => {
            if q > 0 {
                let s = (32 - p) as u32;
                let t = (32 - q) as u32;
                assert((a >> s) == (b >> s) ==> (a >> t) == (b >> t)) by (bit_vector)
                    requires
                        s <= t,
                        t < 32,
                ;
            }
        },
        (IpAddress::V6(a), IpAddress::V6(b)) => {
            if q > 0 {
                let s = (128 - p) as u128;
                let t = (128 - q) as u128;
                vstd::bits::lemma_u128_shr_is_div(a, s);
                vstd::bits::lemma_u128_shr_is_div(b, s);
                vstd::bits::lemma_u128_shr_is_div(a, t);
                vstd::bits::lemma_u128_shr_is_div(b, t);
                let d = (t - s) as nat;
                vstd::arithmetic::power2::lemma_pow2_adds(s as nat, d);
                vstd::arithmetic::power2::lemma_pow2_pos(s as nat);
                vstd::arithmetic::power2::lemma_pow2_pos(d);
                assert(s as nat + d == t as nat);
                vstd::arithmetic::div_mod::lemma_div_denominator(a as int, pow2(s as nat) as int, pow2(d) as int);
                vstd::arithmetic::div_mod::lemma_div_denominator(b as int, pow2(s as nat) as int, pow2(d) as int);
            }
        },
        _ => {},
    }
}

/// Every address is in each of the networks it begins.
pub proof fn law_address_in_own_network(ip: IpAddress, p: u8)
    requires
        p <= width(ip),
    ensures
        in_network(ip, ip, p),
{
}

proof fn lemma_live_all(s: Seq<ConnView>)
    ensures
        forall|k: int| 0 <= k < live(s).len() ==> is_live(#[trigger] live(s)[k]),
        forall|k: int| 0 <= k < live(s).len() ==> s.contains(#[trigger] live(s)[k]),
    decreases s.len(),
{
    if s.len() > 0 {
        let d = s.drop_last();
        lemma_live_all(d);
        let p = live(d);
        assert forall|k: int| 0 <= k < live(s).len() implies is_live(#[trigger] live(s)[k])
            && s.contains(live(s)[k]) by {
            if k < p.len() {
                assert(live(s)[k] == p[k]);
                assert(d.contains(p[k]));
                let j = choose|j: int| 0 <= j < d.len() && d[j] == p[k];
                assert(s[j] == d[j]);
            } else {
                assert(live(s)[k] == s.last());
                assert(s[s.len() - 1] == s.last());
            }
        }
    }
}

/// The active connections that are reported are all live (neither
/// listening nor closed, with a remote address), come from the tables, and
/// go by process name.
pub proof fn law_active_connections_live(all: Seq<ConnView>)
    ensures
        forall|k: int|
            0 <= k < sort_by_key::<ActiveConnection>(live(all)).len() ==> is_live(
                #[trigger] sort_by_key::<ActiveConnection>(live(all))[k],
            ),
        forall|c: ConnView| sort_by_key::<ActiveConnection>(live(all)).contains(c) ==> all.contains(c),
        crate::order::key_sorted::<ActiveConnection>(sort_by_key::<ActiveConnection>(live(all))),
{
    broadcast use vstd::seq_lib::group_to_multiset_ensures;

    lemma_live_all(all);
    crate::order::law_sort_by_key::<ActiveConnection>(live(all));
    let l = live(all);
    let s = sort_by_key::<ActiveConnection>(l);
    assert forall|k: int| 0 <= k < s.len() implies is_live(#[trigger] s[k]) by {
        assert(s.to_multiset().count(s[k]) > 0);
        assert(l.to_multiset().count(s[k]) > 0);
        let j = choose|j: int| 0 <= j < l.len() && l[j] == s[k];
        assert(is_live(l[j]));
    }
    assert forall|c: ConnView| s.contains(c) implies all.contains(c) by {
        let k = choose|k: int| 0 <= k < s.len() && s[k] == c;
        assert(s.to_multiset().count(c) > 0);
        assert(l.to_multiset().count(c) > 0);
        let j = choose|j: int| 0 <= j < l.len() && l[j] == c;
        assert(all.contains(l[j]));
    }
}

} // verus!
