use osvwm::connections::{IpAddress, ProcEntry};
use osvwm::vpn::{
    ConnectionProtocol, ConnectionState, InterfaceType, NetworkInterface, RouteScope, VpnBackend,
};

fn vpn_names() -> Vec<String> {
    vec!["wg0".to_string()]
}

const V4_ROUTES: &str = "default via 192.168.1.1 dev wlan0 proto dhcp metric 600
10.8.0.0/16 dev wg0 scope link
10.0.0.0/8 via 10.8.0.1 dev wg0 proto static
192.168.1.0/24 dev wlan0 proto kernel scope link src 192.168.1.20 metric 600
";

#[test]
fn routes_are_parsed_and_marked_by_interface() {
    let b = VpnBackend::new();
    let r = b.parse_route_line("10.0.0.0/8 via 10.8.0.1 dev wg0 proto static metric 5", &vpn_names()).unwrap();
    assert_eq!(r.destination, "10.0.0.0/8");
    assert_eq!(r.gateway, Some("10.8.0.1".to_string()));
    assert_eq!(r.interface, "wg0");
    assert_eq!(r.metric, 5);
    assert!(r.is_vpn_route);
    assert!(!r.is_default);
    assert!(b.parse_route_line("unreachable 10.1.0.0/16", &vpn_names()).is_none());
    let l = b.parse_route_line("192.168.1.0/24 dev wlan0 scope link", &vpn_names()).unwrap();
    assert_eq!(l.scope, RouteScope::Link);
}

#[test]
fn routing_table_and_split_tunnel() {
    let b = VpnBackend::new();
    let t = b.get_routing_table(V4_ROUTES, "", &vpn_names());
    assert_eq!(t.routes.len(), 4);
    assert_eq!(t.default_interface, Some("wlan0".to_string()));
    assert!(!t.default_via_vpn);
    assert_eq!(t.vpn_routes.len(), 2);
    assert!(t.split_tunnel_detected);
}

fn nets() -> Vec<Option<(IpAddress, u8)>> {
    // The destinations of V4_ROUTES as networks.
    vec![
        None,
        Some((IpAddress::V4(0x0a08_0000), 16)),
        Some((IpAddress::V4(0x0a00_0000), 8)),
        Some((IpAddress::V4(0xc0a8_0100), 24)),
    ]
}

#[test]
fn routes_are_looked_up_by_longest_prefix() {
    let b = VpnBackend::new();
    let t = b.get_routing_table(V4_ROUTES, "", &vpn_names());
    // 10.1.2.3 goes through the VPN's 10.0.0.0/8 route.
    let (iface, via) = b.route_lookup(&IpAddress::V4(0x0a01_0203), &t, &nets());
    assert_eq!(iface, Some("wg0".to_string()));
    assert_eq!(via, Some(true));
    // 8.8.8.8 takes the default route; the link-scope routes are skipped.
    let (iface, via) = b.route_lookup(&IpAddress::V4(0x0808_0808), &t, &nets());
    assert_eq!(iface, Some("wlan0".to_string()));
    assert_eq!(via, Some(false));
    // An IPv6 address matches only the default route.
    let (iface, via) = b.route_lookup(&IpAddress::V6(1), &t, &nets());
    assert_eq!(iface, Some("wlan0".to_string()));
    assert_eq!(via, Some(false));
}

#[test]
fn networks_compare_leading_bits() {
    let a = IpAddress::V4(0xc0a8_0105);
    assert!(VpnBackend::ip_in_network(&a, &IpAddress::V4(0xc0a8_0100), 24));
    assert!(!VpnBackend::ip_in_network(&a, &IpAddress::V4(0xc0a8_0200), 24));
    assert!(VpnBackend::ip_in_network(&a, &IpAddress::V4(0), 0));
    assert!(VpnBackend::ip_in_network(&a, &a, 32));
    assert!(!VpnBackend::ip_in_network(&a, &IpAddress::V6(0), 0));
    let v6 = IpAddress::V6(0xfe80_0000_0000_0000_0000_0000_0000_0001);
    assert!(VpnBackend::ip_in_network(&v6, &IpAddress::V6(0xfe80 << 112), 10));
    assert!(!VpnBackend::ip_in_network(&v6, &IpAddress::V6(0xfd00 << 112), 8));
}

#[test]
fn hex_addresses_of_the_connection_tables() {
    assert_eq!(
        VpnBackend::parse_hex_addr("0100007F:0035", ConnectionProtocol::Tcp),
        Some((IpAddress::V4(0x7f00_0001), 53))
    );
    assert_eq!(
        VpnBackend::parse_hex_addr("00000000000000000000000001000000:1F90", ConnectionProtocol::Tcp6),
        Some((IpAddress::V6(1), 8080))
    );
    assert_eq!(VpnBackend::parse_hex_addr("0100007F", ConnectionProtocol::Tcp), None);
    assert_eq!(VpnBackend::parse_hex_addr("0100007F:XYZ", ConnectionProtocol::Udp), None);
    assert_eq!(VpnBackend::parse_hex_addr("0001:0035", ConnectionProtocol::Udp6), None);
}

#[test]
fn socket_owners_and_states() {
    assert_eq!(VpnBackend::socket_inode("socket:[12345]"), Some(12345));
    assert_eq!(VpnBackend::socket_inode("pipe:[12]"), None);
    assert_eq!(VpnBackend::connection_state("01"), ConnectionState::Established);
    assert_eq!(VpnBackend::connection_state("0A"), ConnectionState::Listen);
    assert_eq!(VpnBackend::connection_state("zz"), ConnectionState::Unknown);
}

const TCP: &str = "  sl  local_address rem_address   st tx_queue rx_queue tr tm->when retrnsmt   uid  timeout inode
   0: 0100007F:0035 00000000:0000 0A 00000000:00000000 00:00000000 00000000   101        0 1111 1 0000000000000000 100 0 0 10 0
   1: 1401A8C0:D2F0 0203010A:01BB 01 00000000:00000000 00:00000000 00000000  1000        0 2222 1 0000000000000000 20 4 30 10 -1
   2: 1401A8C0:D2F2 08080808:0035 06 00000000:00000000 00:00000000 00000000  1000        0 3333 1 0000000000000000 20 4 30 10 -1
";

#[test]
fn active_connections_with_owners_and_routes() {
    let mut b = VpnBackend::new();
    b.refresh_inode_map(&[
        ProcEntry {
            name: "4242".to_string(),
            comm: Some("firefox\n".to_string()),
            fd_links: Some(vec!["socket:[2222]".to_string(), "/dev/null".to_string()]),
        },
        ProcEntry { name: "self".to_string(), comm: None, fd_links: Some(vec!["socket:[3333]".to_string()]) },
        ProcEntry {
            name: "77".to_string(),
            comm: Some("curl".to_string()),
            fd_links: Some(vec!["socket:[3333]".to_string()]),
        },
    ]);
    let t = b.get_routing_table(V4_ROUTES, "", &vpn_names());
    let conns = b.get_active_connections(Some(TCP), None, None, None, &t, &nets());
    // The listening socket is left out; the rest go by process name.
    assert_eq!(conns.len(), 2);
    assert_eq!(conns[0].process_name, Some("curl".to_string()));
    assert_eq!(conns[0].pid, Some(77));
    assert_eq!(conns[0].remote_addr, IpAddress::V4(0x0808_0808));
    assert_eq!(conns[0].state, ConnectionState::TimeWait);
    assert_eq!(conns[0].via_vpn, Some(false));
    assert_eq!(conns[1].process_name, Some("firefox".to_string()));
    assert_eq!(conns[1].local_addr, IpAddress::V4(0xc0a8_0114));
    assert_eq!(conns[1].local_port, 0xd2f0);
    assert_eq!(conns[1].remote_addr, IpAddress::V4(0x0a01_0302));
    assert_eq!(conns[1].remote_port, 443);
    assert_eq!(conns[1].interface_hint, Some("wg0".to_string()));
    assert_eq!(conns[1].via_vpn, Some(true));
}

#[test]
fn short_or_broken_lines_give_no_connection() {
    let b = VpnBackend::new();
    let t = b.get_routing_table(V4_ROUTES, "", &vpn_names());
    assert!(b.parse_proc_net_line("0: 0100007F:0035", ConnectionProtocol::Tcp, &t, &nets()).is_none());
    let line = "0: 0100007F:0035 00000000:0000 0A 0 0 0 101 0 notanumber";
    assert!(b.parse_proc_net_line(line, ConnectionProtocol::Tcp, &t, &nets()).is_none());
}

fn iface(name: &str, t: InterfaceType, vpn: bool, rx: u64, tx: u64) -> NetworkInterface {
    NetworkInterface {
        name: name.to_string(),
        iface_type: t,
        is_vpn: vpn,
        is_up: true,
        mtu: 1500,
        ipv4_addrs: vec![],
        ipv6_addrs: vec![],
        rx_bytes: rx,
        tx_bytes: tx,
        rx_packets: 0,
        tx_packets: 0,
        rx_errors: 0,
        tx_errors: 0,
        rx_dropped: 0,
        tx_dropped: 0,
    }
}

#[test]
fn bandwidth_through_and_around_the_tunnel() {
    let mut b = VpnBackend::new();
    let first = vec![
        iface("lo", InterfaceType::Loopback, false, 500, 500),
        iface("wlan0", InterfaceType::Physical, false, 1000, 200),
        iface("wg0", InterfaceType::WireGuard, true, 300, 100),
        iface("docker0", InterfaceType::Bridge, false, 50, 50),
    ];
    let c = b.calculate_bandwidth_split(&first, true);
    assert_eq!((c.vpn_rx_bytes, c.vpn_tx_bytes), (300, 100));
    assert_eq!((c.direct_rx_bytes, c.direct_tx_bytes), (1000, 200));
    assert!(c.deltas.is_none());
    let second = vec![
        iface("wlan0", InterfaceType::Physical, false, 1500, 260),
        iface("wg0", InterfaceType::WireGuard, true, 250, 180),
        iface("tun1", InterfaceType::OpenVPN, true, 40, 40),
    ];
    let d = b.calculate_bandwidth_split(&second, true).deltas.unwrap();
    assert_eq!((d.direct_rx_bytes, d.direct_tx_bytes), (500, 60));
    assert_eq!((d.vpn_rx_bytes, d.vpn_tx_bytes), (0, 80));
    assert!(b.calculate_bandwidth_split(&second, false).deltas.is_none());
}

#[test]
fn same_counters_twice_move_nothing() {
    let mut b = VpnBackend::new();
    let ifs = vec![
        iface("lo", InterfaceType::Loopback, false, 9, 9),
        iface("eth0", InterfaceType::Physical, false, 700, 300),
        iface("wg0", InterfaceType::WireGuard, true, 50, 20),
    ];
    b.calculate_bandwidth_split(&ifs, true);
    let d = b.calculate_bandwidth_split(&ifs, true).deltas.unwrap();
    assert_eq!((d.vpn_rx_bytes, d.vpn_tx_bytes, d.direct_rx_bytes, d.direct_tx_bytes), (0, 0, 0, 0));
}
