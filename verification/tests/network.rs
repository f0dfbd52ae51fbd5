use osvwm::network::{ConnectionType, NetworkBackend};

#[test]
fn test_status_parsing() {
    let active = "Home:802-11-wireless:wlan0\nWired:802-3-ethernet:eth0\nWork VPN:vpn:tun0\n";
    let st = NetworkBackend::status("enabled\n", "disabled\n", active);
    assert!(st.wifi_enabled);
    assert!(!st.networking_enabled);
    assert_eq!(st.connected_wifi, Some("Home".to_string()));
    assert_eq!(st.active_vpn, Some("Work VPN".to_string()));
    assert_eq!(st.connection_type, ConnectionType::Wifi);
}

#[test]
fn status_without_connections() {
    let st = NetworkBackend::status("disabled", "enabled", "");
    assert!(!st.wifi_enabled);
    assert!(st.networking_enabled);
    assert_eq!(st.connected_wifi, None);
    assert_eq!(st.active_vpn, None);
    assert_eq!(st.connection_type, ConnectionType::NoConnection);
    let eth = NetworkBackend::status("enabled", "enabled", "Wired:802-3-ethernet:eth0\nPhone:gsm:ttyUSB0\n");
    assert_eq!(eth.connection_type, ConnectionType::Ethernet);
}

#[test]
fn wifi_scan_dedups_and_sorts_by_signal() {
    let out = "Cafe:40:WPA2::AA\\:BB:2412 MHz\nHome:80:WPA2:*:CC\\:DD:5180 MHz\nCafe:90:WPA2::EE:2437 MHz\n:70:::FF:2412 MHz\nShort:10\n";
    let nets = NetworkBackend::scan_wifi(out);
    let names: Vec<&str> = nets.iter().map(|n| n.ssid.as_str()).collect();
    assert_eq!(names, vec!["Home", "Cafe"]);
    assert_eq!(nets[0].signal, 80);
    assert!(nets[0].connected);
    assert_eq!(nets[1].signal, 40);
}

#[test]
fn vpn_helpers() {
    assert_eq!(
        NetworkBackend::get_vpn_type(Some("vpn.service-type:org.freedesktop.NetworkManager.openvpn\n")),
        "openvpn"
    );
    assert_eq!(NetworkBackend::get_vpn_type(None), "unknown");
    let conns = "Home:802-11-wireless:1111\nOffice:vpn:2222\nLab:vpn:3333\n";
    assert_eq!(NetworkBackend::vpn_uuids(conns), vec!["2222".to_string(), "3333".to_string()]);
    let vpns = NetworkBackend::list_vpns(
        conns,
        "Office:vpn\n",
        &[Some("vpn.service-type:org.freedesktop.NetworkManager.openvpn".to_string()), None],
    );
    assert_eq!(vpns.len(), 2);
    assert_eq!(vpns[0].name, "Office");
    assert!(vpns[0].active);
    assert_eq!(vpns[0].vpn_type, "openvpn");
    assert!(!vpns[1].active);
    assert_eq!(vpns[1].vpn_type, "unknown");
}

#[test]
fn wifi_device_and_connect_arguments() {
    assert_eq!(
        NetworkBackend::wifi_device("eth0:ethernet\nwlp2s0:wifi\n"),
        Some("wlp2s0".to_string())
    );
    assert_eq!(NetworkBackend::wifi_device("eth0:ethernet\n"), None);
    assert_eq!(
        NetworkBackend::connect_wifi_args("Home", Some("secret")),
        vec!["device", "wifi", "connect", "Home", "password", "secret"]
    );
}

#[test]
fn imports_are_renamed_when_asked() {
    let out = "Connection 'client' (1234) successfully added.\n";
    let o = NetworkBackend::import_outcome(out, Some("client"), "imported", Some("Work"));
    assert_eq!(o.name, "Work");
    assert_eq!(o.rename_from, Some("client".to_string()));
    let same = NetworkBackend::import_outcome(out, None, "imported", Some("client"));
    assert_eq!(same.rename_from, None);
    let fallback = NetworkBackend::import_outcome("done", Some("wg0"), "imported", None);
    assert_eq!(fallback.name, "wg0");
}
