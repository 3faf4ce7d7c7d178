use netprobe::address::{address_summary, IpAddress};

fn v6_link_local() -> IpAddress {
    IpAddress::V6([0xfe80, 0, 0, 0, 0, 0, 0, 1])
}

#[test]
fn summary_keeps_only_ipv4() {
    let addrs = vec![IpAddress::V4(10, 0, 0, 5), v6_link_local()];
    assert_eq!(address_summary(&addrs), "10.0.0.5");
}

#[test]
fn summary_of_no_address_is_na() {
    assert_eq!(address_summary(&vec![]), "N/A");
}

#[test]
fn summary_of_only_ipv6_is_na() {
    assert_eq!(address_summary(&vec![v6_link_local()]), "N/A");
}

#[test]
fn summary_joins_in_order() {
    let addrs = vec![
        IpAddress::V4(192, 168, 1, 20),
        v6_link_local(),
        IpAddress::V4(10, 0, 0, 5),
    ];
    assert_eq!(address_summary(&addrs), "192.168.1.20, 10.0.0.5");
}

#[test]
fn summary_writes_octet_extremes() {
    let addrs = vec![IpAddress::V4(0, 0, 0, 0), IpAddress::V4(255, 255, 9, 100)];
    assert_eq!(address_summary(&addrs), "0.0.0.0, 255.255.9.100");
}
