use cockpit_core::lan::{
    is_lan_ipv4, lan_addr_score, lan_interface_score, parse_ifconfig_ipv4_candidates,
    parse_ipv4_exec, parse_linux_ip_addr_candidates, parse_windows_ipconfig_candidates,
    resolve_primary_lan_ipv4, LanIpv4Candidate,
};

fn chars(s: &str) -> Vec<char> {
    s.chars().collect()
}

fn pairs(v: &[LanIpv4Candidate]) -> Vec<(String, [u8; 4])> {
    v.iter().map(|c| (c.interface_name.clone(), c.addr)).collect()
}

#[test]
fn ipv4_text_parses_as_dot_decimal() {
    let cases: [(&str, Option<[u8; 4]>); 14] = [
        ("192.168.1.20", Some([192, 168, 1, 20])),
        ("10.0.0.1", Some([10, 0, 0, 1])),
        ("0.0.0.0", Some([0, 0, 0, 0])),
        ("255.255.255.255", Some([255, 255, 255, 255])),
        ("1.2.3.4.5", None),
        ("01.2.3.4", None),
        ("256.1.1.1", None),
        ("1.2.3", None),
        ("1..3.4", None),
        ("a.b.c.d", None),
        (" 1.2.3.4", None),
        ("1.2.3.4/24", None),
        ("+1.2.3.4", None),
        ("1.2.3.0004", None),
    ];
    for (text, expected) in cases {
        assert_eq!(parse_ipv4_exec(&chars(text)), expected, "{}", text);
    }
}

#[test]
fn private_ranges_are_the_rfc1918_blocks() {
    let cases: [([u8; 4], bool); 8] = [
        ([10, 1, 2, 3], true),
        ([172, 16, 0, 1], true),
        ([172, 31, 255, 255], true),
        ([172, 32, 0, 1], false),
        ([192, 168, 0, 1], true),
        ([192, 169, 0, 1], false),
        ([8, 8, 8, 8], false),
        ([127, 0, 0, 1], false),
    ];
    for (octets, expected) in cases {
        assert_eq!(is_lan_ipv4(octets), expected, "{:?}", octets);
    }
}

#[test]
fn reads_ifconfig_listing() {
    let output = "lo0: flags=8049<UP,LOOPBACK,RUNNING,MULTICAST> mtu 16384\n\
\tinet 127.0.0.1 netmask 0xff000000\n\
en0: flags=8863<UP,BROADCAST,SMART,RUNNING,SIMPLEX,MULTICAST> mtu 1500\n\
\tether 3c:22:fb:00:00:01\n\
\tinet 192.168.1.23 netmask 0xffffff00 broadcast 192.168.1.255\n\
utun3: flags=8051<UP,POINTOPOINT,RUNNING,MULTICAST> mtu 1380\n\
\tinet 10.8.0.2 --> 10.8.0.1 netmask 0xffffff00\n\
bridge100: flags=8863<UP> mtu 1500\n\
\tinet 8.8.8.8 netmask 0xffffff00\n";
    let found = pairs(&parse_ifconfig_ipv4_candidates(output));
    assert_eq!(
        found,
        vec![("en0".to_string(), [192, 168, 1, 23]), ("utun3".to_string(), [10, 8, 0, 2])]
    );
}

#[test]
fn reads_ip_addr_listing() {
    let output = "2: eth0    inet 192.168.0.15/24 brd 192.168.0.255 scope global dynamic eth0\\       valid_lft 86000sec\n\
3: docker0:    inet 172.17.0.1/16 brd 172.17.255.255 scope global docker0\n\
4: wlan0    inet 100.64.0.3/10 scope global wlan0\n\
5:\n";
    let found = pairs(&parse_linux_ip_addr_candidates(output));
    assert_eq!(
        found,
        vec![("eth0".to_string(), [192, 168, 0, 15]), ("docker0".to_string(), [172, 17, 0, 1])]
    );
}

#[test]
fn reads_ipconfig_listing() {
    let output = "Windows IP Configuration\r\n\r\n\
Ethernet adapter Ethernet:\r\n\r\n\
   Connection-specific DNS Suffix  . : lan\r\n\
   IPv4 Address. . . . . . . . . . . : 192.168.50.7\r\n\
   Subnet Mask . . . . . . . . . . . : 255.255.255.0\r\n\r\n\
Wireless LAN adapter Wi-Fi:\r\n\r\n\
   IPv4 Address. . . . . . . . . . . : 10.1.2.3\r\n\
   IPv4 Address. . . . . . . . . . . : 8.8.4.4\r\n";
    let found = pairs(&parse_windows_ipconfig_candidates(output));
    assert_eq!(
        found,
        vec![
            ("Ethernet adapter Ethernet".to_string(), [192, 168, 50, 7]),
            ("Wireless LAN adapter Wi-Fi".to_string(), [10, 1, 2, 3]),
        ]
    );
}

#[test]
fn interface_and_address_scores() {
    assert_eq!(lan_interface_score("en0"), 0);
    assert_eq!(lan_interface_score("ETH1"), 0);
    assert_eq!(lan_interface_score("Wireless LAN adapter Wi-Fi"), 0);
    assert_eq!(lan_interface_score("docker0"), 2);
    assert_eq!(lan_interface_score("utun4"), 2);
    assert_eq!(lan_interface_score("wg0"), 2);
    assert_eq!(lan_interface_score("ppp0"), 1);
    assert_eq!(lan_addr_score([192, 168, 3, 4]), 0);
    assert_eq!(lan_addr_score([10, 0, 0, 9]), 1);
    assert_eq!(lan_addr_score([172, 20, 0, 9]), 2);
}

#[test]
fn primary_address_prefers_physical_interfaces_then_home_ranges() {
    let candidate = |name: &str, addr: [u8; 4]| LanIpv4Candidate {
        interface_name: name.to_string(),
        addr,
    };
    assert_eq!(resolve_primary_lan_ipv4(&Vec::new()), None);
    let list = vec![
        candidate("docker0", [192, 168, 9, 1]),
        candidate("en0", [10, 0, 0, 5]),
        candidate("en1", [192, 168, 1, 40]),
        candidate("en2", [192, 168, 1, 30]),
        candidate("ppp0", [192, 168, 0, 1]),
    ];
    assert_eq!(resolve_primary_lan_ipv4(&list), Some([192, 168, 1, 30]));
    let mut reversed = list;
    reversed.reverse();
    assert_eq!(resolve_primary_lan_ipv4(&reversed), Some([192, 168, 1, 30]));
}

#[test]
fn lan_base_url_uses_the_announced_address() {
    assert_eq!(
        cockpit_core::lan::build_lan_base_url(1455, Some([192, 168, 1, 7])).as_deref(),
        Some("http://192.168.1.7:1455/v1")
    );
    assert_eq!(cockpit_core::lan::build_lan_base_url(1455, None), None);
}
