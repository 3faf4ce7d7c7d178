use netprobe::address::IpAddress;
use netprobe::network::{get_network_details, NetworkDetails, RawInterface};
use netprobe::tray::{tray_menu_action, TrayAction};
use netprobe::wifi::WifiPlatform;

fn table() -> Vec<RawInterface> {
    vec![
        RawInterface {
            name: "lo".to_string(),
            addresses: vec![IpAddress::V4(127, 0, 0, 1), IpAddress::V6([0, 0, 0, 0, 0, 0, 0, 1])],
        },
        RawInterface { name: "wlan0".to_string(), addresses: vec![] },
    ]
}

fn airport_output() -> Option<Vec<u8>> {
    Some(b"    SSID: HomeNet\n    agrCtlRSSI: -52\n".to_vec())
}

fn summary(d: &NetworkDetails) -> Vec<(String, String)> {
    d.interfaces.iter().map(|i| (i.name.clone(), i.ip.clone())).collect()
}

#[test]
fn snapshot_from_probes() {
    let d = get_network_details(Ok(table()), true, WifiPlatform::MacOs, airport_output()).unwrap();
    assert!(d.online);
    assert!(d.internet_accessible);
    assert_eq!(
        summary(&d),
        vec![
            ("lo".to_string(), "127.0.0.1".to_string()),
            ("wlan0".to_string(), "N/A".to_string())
        ]
    );
    assert_eq!(d.ssid, Some("HomeNet".to_string()));
    assert_eq!(d.signal_strength, Some(-52));
}

#[test]
fn unreachable_internet_still_succeeds() {
    let d = get_network_details(Ok(table()), false, WifiPlatform::Linux, None).unwrap();
    assert!(!d.internet_accessible);
    assert!(d.online);
    assert_eq!(d.ssid, None);
    assert_eq!(d.signal_strength, None);
}

#[test]
fn empty_table_is_offline() {
    let d = get_network_details(Ok(vec![]), false, WifiPlatform::Other, None).unwrap();
    assert!(!d.online);
    assert!(d.interfaces.is_empty());
}

#[test]
fn failed_interface_query_is_an_error() {
    let r = get_network_details(
        Err("permission denied".to_string()),
        true,
        WifiPlatform::MacOs,
        airport_output(),
    );
    assert_eq!(r.err(), Some("Failed to get network interfaces: permission denied".to_string()));
}

#[test]
fn repeated_snapshots_agree() {
    let a = get_network_details(Ok(table()), true, WifiPlatform::MacOs, airport_output()).unwrap();
    let b = get_network_details(Ok(table()), false, WifiPlatform::MacOs, airport_output()).unwrap();
    assert_eq!(summary(&a), summary(&b));
    assert_eq!(a.ssid, b.ssid);
    assert_eq!(a.signal_strength, b.signal_strength);
}

#[test]
fn snapshot_invariants_hold() {
    for (t, out) in [(table(), airport_output()), (vec![], None), (table(), None)] {
        let d = get_network_details(Ok(t), true, WifiPlatform::MacOs, out).unwrap();
        assert_eq!(d.online, !d.interfaces.is_empty());
        assert!(d.signal_strength.is_none() || d.ssid.is_some());
    }
}

#[test]
fn tray_menu_entries() {
    assert_eq!(tray_menu_action("open"), Some(TrayAction::Open));
    assert_eq!(tray_menu_action("minimize"), Some(TrayAction::Minimize));
    assert_eq!(tray_menu_action("maximize"), Some(TrayAction::Maximize));
    assert_eq!(tray_menu_action("quit"), Some(TrayAction::Quit));
    assert_eq!(tray_menu_action("settings"), None);
}
