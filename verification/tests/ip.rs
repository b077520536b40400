use cmem_server::ip::{
    cidr_contains, ip_in, forwarded_entries, parse_forwarded_for, parse_trusted_cidrs, parse_trusted_entry, resolve_client_ip, Cidr,
    ClientIp, ClientIpKeyExtractor, IpAddress,
};

fn v4(a: u8, b: u8, c: u8, d: u8) -> IpAddress {
    IpAddress::V4(u32::from_be_bytes([a, b, c, d]))
}

fn trusted(items: &[&str]) -> Vec<Cidr> {
    parse_trusted_cidrs(&items.iter().map(|s| s.to_string()).collect::<Vec<_>>())
}

const LOOPBACK6: IpAddress = IpAddress::V6(1);

#[test]
fn parses_cidr_and_bare_ip() {
    let n = trusted(&["127.0.0.1/32", "10.0.0.0/8", "192.168.1.1"]);
    assert_eq!(n.len(), 3);
    assert_eq!(n[2], Cidr { addr: v4(192, 168, 1, 1), prefix: 32 });
    assert_eq!(n[1], Cidr { addr: v4(10, 0, 0, 0), prefix: 8 });
}

#[test]
fn invalid_cidr_dropped() {
    let n = trusted(&["nonsense", "127.0.0.1/32"]);
    assert_eq!(n.len(), 1);
}

#[test]
fn invalid_cidr_entries_are_dropped_silently() {
    let t = trusted(&["nonsense", "10.0.0.0/99", "127.0.0.1/32"]);
    assert_eq!(t.len(), 1);
}

#[test]
fn bare_ipv6_is_a_single_host() {
    assert_eq!(parse_trusted_entry("::1"), Some(Cidr { addr: LOOPBACK6, prefix: 128 }));
    assert_eq!(parse_trusted_entry("::1/128"), Some(Cidr { addr: LOOPBACK6, prefix: 128 }));
}

#[test]
fn ip_untrusted_peer_ignores_xff() {
    let trusted = trusted(&["10.0.0.0/8"]);
    let chain = "198.51.100.7";
    let got = resolve_client_ip(Some(v4(203, 0, 113, 5)), Some(chain), &trusted);
    assert_eq!(got, Some(v4(203, 0, 113, 5)));
}

#[test]
fn security_ip_untrusted_peer_ignores_xff() {
    let trusted = trusted(&["10.0.0.0/8", "127.0.0.1/32"]);
    let chain = "198.51.100.99";
    let got = resolve_client_ip(Some(v4(203, 0, 113, 5)), Some(chain), &trusted);
    assert_eq!(got, Some(v4(203, 0, 113, 5)));
}

#[test]
fn untrusted_peer_with_long_xff_still_uses_peer() {
    let trusted = trusted(&["10.0.0.0/8"]);
    let chain = "1.1.1.1, 2.2.2.2, 10.0.0.99, 198.51.100.7";
    let got = resolve_client_ip(Some(v4(203, 0, 113, 5)), Some(chain), &trusted);
    assert_eq!(got, Some(v4(203, 0, 113, 5)));
}

#[test]
fn trusted_peer_uses_xff_single_hop() {
    let trusted = trusted(&["127.0.0.1/32"]);
    let chain = "203.0.113.42";
    let got = resolve_client_ip(Some(v4(127, 0, 0, 1)), Some(chain), &trusted);
    assert_eq!(got, Some(v4(203, 0, 113, 42)));
}

#[test]
fn trusted_peer_single_xff() {
    let trusted = trusted(&["127.0.0.1/32"]);
    let chain = "203.0.113.42";
    let got = resolve_client_ip(Some(v4(127, 0, 0, 1)), Some(chain), &trusted);
    assert_eq!(got, Some(v4(203, 0, 113, 42)));
}

#[test]
fn trusted_peer_uses_xff_chain_rightmost_non_trusted() {
    let trusted = trusted(&["10.0.0.0/8", "127.0.0.1/32"]);
    let chain = "203.0.113.5, 198.51.100.7, 10.0.0.5";
    let got = resolve_client_ip(Some(v4(127, 0, 0, 1)), Some(chain), &trusted);
    assert_eq!(got, Some(v4(198, 51, 100, 7)));
}

#[test]
fn trusted_peer_uses_xff_rightmost_non_trusted() {
    let trusted = trusted(&["10.0.0.0/8", "127.0.0.1/32"]);
    let chain = "203.0.113.5, 198.51.100.7, 10.0.0.99";
    let got = resolve_client_ip(Some(v4(127, 0, 0, 1)), Some(chain), &trusted);
    assert_eq!(got, Some(v4(198, 51, 100, 7)));
}

#[test]
fn ip_trusted_peer_no_xff_falls_back_to_peer() {
    let trusted = trusted(&["127.0.0.1/32"]);
    let got = resolve_client_ip(Some(v4(127, 0, 0, 1)), None, &trusted);
    assert_eq!(got, Some(v4(127, 0, 0, 1)));
}

#[test]
fn security_ip_trusted_peer_no_xff_falls_back_to_peer() {
    let trusted = trusted(&["127.0.0.1/32"]);
    let got = resolve_client_ip(Some(v4(127, 0, 0, 1)), None, &trusted);
    assert_eq!(got, Some(v4(127, 0, 0, 1)));
}

#[test]
fn trusted_peer_empty_xff_falls_back_to_peer() {
    let trusted = trusted(&["127.0.0.1/32"]);
    assert!(forwarded_entries("").is_empty());
    let chain = "";
    let got = resolve_client_ip(Some(v4(127, 0, 0, 1)), Some(chain), &trusted);
    assert_eq!(got, Some(v4(127, 0, 0, 1)));
}

#[test]
fn entire_chain_trusted_falls_back_to_leftmost() {
    let trusted = trusted(&["10.0.0.0/8"]);
    let chain = "10.0.0.5, 10.0.0.6";
    let got = resolve_client_ip(Some(v4(10, 0, 0, 1)), Some(chain), &trusted);
    assert_eq!(got, Some(v4(10, 0, 0, 5)));
}

#[test]
fn entire_chain_trusted_returns_leftmost() {
    let trusted = trusted(&["10.0.0.0/8", "127.0.0.1/32"]);
    let chain = "10.0.0.5, 10.0.0.6";
    let got = resolve_client_ip(Some(v4(127, 0, 0, 1)), Some(chain), &trusted);
    assert_eq!(got, Some(v4(10, 0, 0, 5)));
}

#[test]
fn ipv6_localhost_trusted() {
    let trusted = trusted(&["::1/128"]);
    let client = IpAddress::V6(0x2001_0db8_0000_0000_0000_0000_0000_dead);
    let chain = "2001:db8::dead";
    let got = resolve_client_ip(Some(LOOPBACK6), Some(chain), &trusted);
    assert_eq!(got, Some(client));
}

#[test]
fn ipv6_loopback_trusted() {
    let trusted = trusted(&["::1/128"]);
    let client = IpAddress::V6(0x2001_0db8_0000_0000_0000_0000_0000_0001);
    let chain = "2001:db8::1";
    let got = resolve_client_ip(Some(LOOPBACK6), Some(chain), &trusted);
    assert_eq!(got, Some(client));
}

#[test]
fn no_peer_returns_none() {
    let trusted = trusted(&["127.0.0.1/32"]);
    let chain = "203.0.113.5";
    let got = resolve_client_ip(None, Some(chain), &trusted);
    assert_eq!(got, None);
}

#[test]
fn forwarded_header_is_split_and_trimmed() {
    let e = forwarded_entries(" 203.0.113.5 ,, 198.51.100.7:8080,");
    assert_eq!(e, vec!["203.0.113.5".to_string(), "198.51.100.7:8080".to_string()]);
}

#[test]
fn networks_hold_their_hosts() {
    let t = trusted(&["10.0.0.0/8", "0.0.0.0/0"]);
    assert!(cidr_contains(&t[0], v4(10, 255, 1, 2)));
    assert!(!cidr_contains(&t[0], v4(11, 0, 0, 1)));
    assert!(cidr_contains(&t[1], v4(8, 8, 8, 8)));
    assert!(!cidr_contains(&t[1], LOOPBACK6));
    assert!(ip_in(v4(10, 1, 1, 1), &t[..1]));
}

#[test]
fn rate_limit_key_falls_back_to_unspecified_address() {
    assert_eq!(ClientIpKeyExtractor::extract(Some(ClientIp(Some(v4(1, 2, 3, 4))))), v4(1, 2, 3, 4));
    assert_eq!(ClientIpKeyExtractor::extract(Some(ClientIp(None))), v4(0, 0, 0, 0));
    assert_eq!(ClientIpKeyExtractor::extract(None), v4(0, 0, 0, 0));
}

#[test]
fn xff_with_port_is_accepted() {
    let trusted = trusted(&["127.0.0.1/32"]);
    let got = resolve_client_ip(Some(v4(127, 0, 0, 1)), Some("203.0.113.5:65000"), &trusted);
    assert_eq!(got, Some(v4(203, 0, 113, 5)));
}

#[test]
fn xff_with_socket_addr_port_is_handled() {
    let trusted = trusted(&["127.0.0.1/32"]);
    let got = resolve_client_ip(Some(v4(127, 0, 0, 1)), Some("203.0.113.5:65000"), &trusted);
    assert_eq!(got, Some(v4(203, 0, 113, 5)));
}

#[test]
fn forwarded_entries_read_with_and_without_ports() {
    let chain = parse_forwarded_for(" 203.0.113.5 , [2001:db8::1]:443, bogus, 198.51.100.7:65536, 10.0.0.1:080 ,::1");
    assert_eq!(
        chain,
        vec![
            v4(203, 0, 113, 5),
            IpAddress::V6(0x2001_0db8_0000_0000_0000_0000_0000_0001),
            v4(10, 0, 0, 1),
            LOOPBACK6,
        ]
    );
    assert!(parse_forwarded_for("1.2.3.4/8, [1.2.3.4]:80, 1.2.3.4:").is_empty());
}
