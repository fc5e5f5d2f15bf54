use procdash::vpn::{
    interface_present, mentions_proton, parse_interface_addr, parse_mullvad_output,
    parse_nordvpn_output, parse_protonvpn_output, VpnAction, VpnProvider, VpnStatus,
};

#[test]
fn provider_names() {
    assert_eq!(VpnProvider::Unknown.name(), "Unknown");
    assert_eq!(VpnProvider::ProtonVPN.name(), "ProtonVPN");
    assert_eq!(VpnProvider::NordVPN.name(), "NordVPN");
    assert_eq!(VpnProvider::Mullvad.name(), "Mullvad");
    assert_eq!(VpnProvider::ExpressVPN.name(), "ExpressVPN");
    assert_eq!(VpnProvider::Generic.name(), "VPN");
}

#[test]
fn fresh_status_is_empty() {
    let st = VpnStatus::new();
    assert!(!st.connected);
    assert_eq!(st.provider, VpnProvider::Unknown);
    assert!(st.server.is_none());
    assert!(st.country.is_none());
    assert!(st.city.is_none());
    assert!(st.ip.is_none());
    assert!(st.protocol.is_none());
    assert!(st.interface.is_none());
    assert!(st.connection_time.is_none());
    assert!(st.raw_output.is_empty());
    assert_eq!(st.action, VpnAction::Idle);
    assert!(st.action_message.is_none());
}

#[test]
fn actions_are_set_and_cleared() {
    let mut st = VpnStatus::new();
    st.set_action(VpnAction::Idle, Some("waiting".to_string()));
    assert_eq!(st.action, VpnAction::Idle);
    assert_eq!(st.action_message, Some("waiting".to_string()));
    st.clear_action();
    assert_eq!(st.action, VpnAction::Idle);
    assert!(st.action_message.is_none());
}

#[test]
fn connected_output_fills_the_fields() {
    let out = "Status:     Connected\nServer:     NL#42\nCountry:    Netherlands\nCity:       Amsterdam\nIP:         185.1.2.3\nProtocol:   UDP\nTime:       01:23:45";
    let st = parse_protonvpn_output(out, out.to_string());
    assert!(st.connected);
    assert_eq!(st.provider, VpnProvider::ProtonVPN);
    assert_eq!(st.raw_output, out.to_string());
    assert_eq!(st.server, Some("NL#42".to_string()));
    assert_eq!(st.country, Some("Netherlands".to_string()));
    assert_eq!(st.city, Some("Amsterdam".to_string()));
    assert_eq!(st.ip, Some("185.1.2.3".to_string()));
    assert_eq!(st.protocol, Some("UDP".to_string()));
    assert_eq!(st.connection_time, Some("01:23:45".to_string()));
    assert!(st.interface.is_none());
    assert_eq!(st.action, VpnAction::Idle);
}

#[test]
fn connection_time_marker_variant() {
    let out = "Status: Connected\nConnection time: 2h 5m";
    let st = parse_protonvpn_output(out, String::new());
    assert!(st.connected);
    assert_eq!(st.connection_time, Some("2h 5m".to_string()));
}

#[test]
fn disconnected_output_parses_no_fields() {
    let out = "Status: Disconnected\nServer: stale-line";
    let st = parse_protonvpn_output(out, out.to_string());
    assert!(!st.connected);
    assert!(st.server.is_none());
    assert!(st.country.is_none());
    assert_eq!(st.provider, VpnProvider::ProtonVPN);
}

#[test]
fn no_active_session_output() {
    let out = "No active ProtonVPN connection.";
    let st = parse_protonvpn_output(out, out.to_string());
    assert!(!st.connected);
    assert!(st.server.is_none());
}

#[test]
fn last_matching_line_wins() {
    let out = "Status: Connected\nServer: A#1\nServer: B#2";
    let st = parse_protonvpn_output(out, String::new());
    assert_eq!(st.server, Some("B#2".to_string()));
}

#[test]
fn nordvpn_connected_output() {
    let out = "Status: Connected\nHostname: de1076.nordvpn.com\nCountry: Germany\nCity: Berlin\nCurrent server IP: 5.6.7.8\nCurrent protocol: NORDLYNX\nUptime: 2 hours 5 minutes";
    let st = parse_nordvpn_output(out).expect("recognized");
    assert!(st.connected);
    assert_eq!(st.provider, VpnProvider::NordVPN);
    assert_eq!(st.raw_output, out.to_string());
    assert_eq!(st.server, Some("de1076.nordvpn.com".to_string()));
    assert_eq!(st.country, Some("Germany".to_string()));
    assert_eq!(st.city, Some("Berlin".to_string()));
    assert_eq!(st.ip, Some("5.6.7.8".to_string()));
    assert_eq!(st.protocol, Some("NORDLYNX".to_string()));
    assert_eq!(st.connection_time, Some("2 hours 5 minutes".to_string()));
}

#[test]
fn nordvpn_disconnected_is_not_recognized() {
    assert!(parse_nordvpn_output("Status: Disconnected").is_none());
    assert!(parse_nordvpn_output("").is_none());
}

#[test]
fn nordvpn_value_stops_at_second_colon() {
    let out = "Status: Connected\nServer: nord:extra";
    let st = parse_nordvpn_output(out).expect("recognized");
    assert_eq!(st.server, Some("nord".to_string()));
}

#[test]
fn mullvad_connected_output() {
    let out = "Connected to se-got-wg-001 in Gothenburg, Sweden\nIPv4: 10.64.0.2";
    let st = parse_mullvad_output(out).expect("recognized");
    assert!(st.connected);
    assert_eq!(st.provider, VpnProvider::Mullvad);
    assert_eq!(st.server, Some("se-got-wg-001".to_string()));
    assert_eq!(st.country, Some("Gothenburg, Sweden".to_string()));
    assert_eq!(st.ip, Some("10.64.0.2".to_string()));
    assert!(st.city.is_none());
    assert!(st.connection_time.is_none());
}

#[test]
fn mullvad_disconnected_is_not_recognized() {
    assert!(parse_mullvad_output("Disconnected").is_none());
}

#[test]
fn mullvad_connection_line_without_server_part() {
    let out = "Connected to\nIPv4: 10.64.0.9";
    let st = parse_mullvad_output(out).expect("recognized");
    assert!(st.server.is_none());
    assert_eq!(st.ip, Some("10.64.0.9".to_string()));
}

#[test]
fn interface_output_parsing() {
    let out = "4: wg0: <POINTOPOINT,NOARP,UP> mtu 1420\n    inet 10.2.0.2/32 scope global wg0\n       valid_lft forever";
    assert!(interface_present(out));
    assert_eq!(parse_interface_addr(out), Some("10.2.0.2/32".to_string()));
    assert!(!interface_present("Device \"wg9\" does not exist."));
    assert!(!interface_present(""));
    assert_eq!(parse_interface_addr("no address lines here"), None);
}

#[test]
fn process_listing_mentions() {
    assert!(mentions_proton("root 123 protonvpn-daemon"));
    assert!(mentions_proton("user 5 proton-vpn-gui"));
    assert!(!mentions_proton("user 5 firefox"));
}

#[test]
fn unrelated_text_leaves_fields_empty() {
    let out = "usage: protonvpn-cli <command>";
    let st = parse_protonvpn_output(out, out.to_string());
    assert!(!st.connected);
    assert!(st.server.is_none());
    assert_eq!(st.raw_output, out.to_string());
}
