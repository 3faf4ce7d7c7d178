use netprobe::wifi::{parse_wifi_output, probe_command, wifi_from_tool_output, WifiPlatform};

#[test]
fn macos_reads_name_and_signal() {
    let out = "     agrCtlNoise: -90\n    SSID: HomeNet\n    agrCtlRSSI: -52\n";
    assert_eq!(
        parse_wifi_output(WifiPlatform::MacOs, out),
        (Some("HomeNet".to_string()), Some(-52))
    );
}

#[test]
fn no_ssid_line_gives_nothing() {
    let out = "     agrCtlRSSI: -52\n     state: init\n";
    assert_eq!(parse_wifi_output(WifiPlatform::MacOs, out), (None, None));
    assert_eq!(parse_wifi_output(WifiPlatform::Linux, ""), (None, None));
}

#[test]
fn first_matching_line_wins() {
    let out = "SSID: First\nSSID: Second\nagrCtlRSSI: -40\nagrCtlRSSI: -70\n";
    assert_eq!(
        parse_wifi_output(WifiPlatform::MacOs, out),
        (Some("First".to_string()), Some(-40))
    );
}

#[test]
fn unparsable_signal_is_absent() {
    let out = "    SSID: Cafe\n    agrCtlRSSI: strong\n";
    assert_eq!(
        parse_wifi_output(WifiPlatform::MacOs, out),
        (Some("Cafe".to_string()), None)
    );
}

#[test]
fn linux_reads_iwctl_output() {
    let out = "    Connected network     Office 5G  \n    RSSI                  -61 dBm\n";
    assert_eq!(
        parse_wifi_output(WifiPlatform::Linux, out),
        (Some("Office 5G".to_string()), None)
    );
    let out2 = "    Connected network     Office\r\n    RSSI   -61\r\n";
    assert_eq!(
        parse_wifi_output(WifiPlatform::Linux, out2),
        (Some("Office".to_string()), Some(-61))
    );
}

#[test]
fn windows_reads_fields_after_colon() {
    let out = "    Name                   : Wi-Fi\r\n    SSID                   : HomeNet\r\n    BSSID                  : aa:bb:cc:dd:ee:ff\r\n    Signal                 : 87%\r\n";
    assert_eq!(
        parse_wifi_output(WifiPlatform::Windows, out),
        (Some("HomeNet".to_string()), Some(87))
    );
}

#[test]
fn windows_line_without_colon_gives_nothing() {
    let out = "    SSID HomeNet\r\n    Signal : 50%\r\n";
    assert_eq!(parse_wifi_output(WifiPlatform::Windows, out), (None, None));
}

#[test]
fn unknown_platform_gives_nothing() {
    let out = "    SSID: HomeNet\n    agrCtlRSSI: -52\n";
    assert_eq!(parse_wifi_output(WifiPlatform::Other, out), (None, None));
}

#[test]
fn signal_without_name_is_dropped() {
    let out = "    Signal : 50%\r\n";
    assert_eq!(parse_wifi_output(WifiPlatform::Windows, out), (None, None));
}

#[test]
fn tool_output_bytes_are_decoded() {
    let bytes = b"    SSID: Caf\xff\n    agrCtlRSSI: -52\n".to_vec();
    assert_eq!(
        wifi_from_tool_output(WifiPlatform::MacOs, &Some(bytes)),
        (Some("Caf\u{fffd}".to_string()), Some(-52))
    );
    assert_eq!(wifi_from_tool_output(WifiPlatform::MacOs, &None), (None, None));
}

#[test]
fn commands_per_platform() {
    let mac = probe_command(WifiPlatform::MacOs).unwrap();
    assert_eq!(mac.program, "airport");
    assert_eq!(mac.args, vec!["-I".to_string()]);
    let linux = probe_command(WifiPlatform::Linux).unwrap();
    assert_eq!(linux.program, "iwctl");
    assert_eq!(linux.args, vec!["station", "wlan0", "show"]);
    let win = probe_command(WifiPlatform::Windows).unwrap();
    assert_eq!(win.program, "netsh");
    assert_eq!(win.args, vec!["wlan", "show", "interfaces"]);
    assert!(probe_command(WifiPlatform::Other).is_none());
}

#[test]
fn platform_from_os_name() {
    assert_eq!(WifiPlatform::from_os_name("macos"), WifiPlatform::MacOs);
    assert_eq!(WifiPlatform::from_os_name("linux"), WifiPlatform::Linux);
    assert_eq!(WifiPlatform::from_os_name("windows"), WifiPlatform::Windows);
    assert_eq!(WifiPlatform::from_os_name("freebsd"), WifiPlatform::Other);
    assert_eq!(WifiPlatform::from_os_name("Linux"), WifiPlatform::Other);
}
