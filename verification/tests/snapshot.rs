use pulse::snapshot::ipv4::{parse_ipv4, Ipv4};
use pulse::snapshot::tcp::{sock, tcp_state};
use pulse::snapshot::{capture, is_external, is_public, Connection, ProcessInfo, Snapshot};

#[test]
fn external_detection() {
    assert!(is_external("8.8.8.8:443"));
    assert!(is_external("192.168.1.5:80"));
    assert!(!is_external("127.0.0.1:5432"));
    assert!(!is_external("0.0.0.0:0"));
    assert!(!is_external("224.0.0.1:1"));
}

#[test]
fn public_detection() {
    assert!(is_public("8.8.8.8:443"));
    assert!(!is_public("192.168.1.5:80"));
    assert!(!is_public("127.0.0.1:5432"));
    assert!(!is_public("0.0.0.0:0"));
    assert!(!is_public("169.254.1.1:1"));
}

#[test]
fn parse_ipv4_reads_host_part() {
    assert_eq!(parse_ipv4("8.8.8.8:443"), Some(Ipv4 { a: 8, b: 8, c: 8, d: 8 }));
    assert_eq!(parse_ipv4("203.0.113.66:443"), Some(Ipv4 { a: 203, b: 0, c: 113, d: 66 }));
    assert_eq!(parse_ipv4("10.0.0.1"), Some(Ipv4 { a: 10, b: 0, c: 0, d: 1 }));
    assert_eq!(parse_ipv4("255.255.255.255:1"), Some(Ipv4 { a: 255, b: 255, c: 255, d: 255 }));
    assert_eq!(parse_ipv4("0.0.0.0:0"), Some(Ipv4 { a: 0, b: 0, c: 0, d: 0 }));
}

#[test]
fn parse_ipv4_refuses_malformed_text() {
    assert_eq!(parse_ipv4("192.168.001.1:80"), None);
    assert_eq!(parse_ipv4("256.1.1.1:80"), None);
    assert_eq!(parse_ipv4("1.2.3:80"), None);
    assert_eq!(parse_ipv4("1.2.3.4.5:80"), None);
    assert_eq!(parse_ipv4("1.2..4:80"), None);
    assert_eq!(parse_ipv4("1.2.3.4:5:6"), None);
    assert_eq!(parse_ipv4("::1"), None);
    assert_eq!(parse_ipv4("a.b.c.d:1"), None);
    assert_eq!(parse_ipv4("+1.2.3.4:1"), None);
    assert_eq!(parse_ipv4("1234.2.3.4:1"), None);
    assert_eq!(parse_ipv4(""), None);
    assert_eq!(parse_ipv4("１.2.3.4:1"), None);
}

#[test]
fn address_classes() {
    let ip = |a, b, c, d| Ipv4 { a, b, c, d };
    assert!(ip(127, 1, 2, 3).is_loopback());
    assert!(ip(0, 0, 0, 0).is_unspecified());
    assert!(!ip(0, 0, 0, 1).is_unspecified());
    assert!(ip(224, 0, 0, 1).is_multicast());
    assert!(ip(239, 255, 255, 255).is_multicast());
    assert!(!ip(240, 0, 0, 1).is_multicast());
    assert!(ip(10, 1, 2, 3).is_private());
    assert!(ip(172, 16, 0, 1).is_private());
    assert!(ip(172, 31, 255, 1).is_private());
    assert!(!ip(172, 32, 0, 1).is_private());
    assert!(!ip(172, 15, 0, 1).is_private());
    assert!(ip(192, 168, 0, 1).is_private());
    assert!(ip(169, 254, 1, 1).is_link_local());
    assert!(!ip(169, 253, 1, 1).is_link_local());
}

#[test]
fn public_and_external_edges() {
    // Documentation ranges are not private, so they count as public.
    assert!(is_public("203.0.113.66:443"));
    assert!(is_public("172.32.0.1:1"));
    assert!(!is_public("172.16.0.1:1"));
    assert!(!is_public("10.0.0.5:80"));
    assert!(is_external("10.0.0.5:80"));
    // Link-local peers are external but not public.
    assert!(is_external("169.254.1.1:1"));
    assert!(!is_public("169.254.1.1:1"));
    // Text that is no IPv4 address is neither.
    assert!(!is_external("localhost:80"));
    assert!(!is_public("localhost:80"));
}

#[test]
fn listen_socket_is_not_external() {
    assert!(!is_external("0.0.0.0:0"));
    assert!(!is_public("0.0.0.0:0"));
}

#[test]
fn public_addresses_are_external() {
    for a in ["8.8.8.8:443", "203.0.113.66:443", "1.1.1.1", "172.32.0.1:9"] {
        assert!(is_public(a));
        assert!(is_external(a));
    }
}

#[test]
fn tcp_state_names() {
    assert_eq!(tcp_state(1), "CLOSED");
    assert_eq!(tcp_state(2), "LISTEN");
    assert_eq!(tcp_state(5), "ESTABLISHED");
    assert_eq!(tcp_state(11), "TIME_WAIT");
    assert_eq!(tcp_state(12), "DELETE_TCB");
    assert_eq!(tcp_state(0), "STATE_0");
    assert_eq!(tcp_state(99), "STATE_99");
    assert_eq!(tcp_state(4294967295), "STATE_4294967295");
}

#[test]
fn sock_formats_endpoint() {
    assert_eq!(sock(0x7f00_0001, 5432), "127.0.0.1:5432");
    assert_eq!(sock(0, 0), "0.0.0.0:0");
    assert_eq!(sock(0xcb00_7142, 443), "203.0.113.66:443");
    assert_eq!(sock(0xffff_ffff, 65535), "255.255.255.255:65535");
}

#[test]
fn capture_keeps_records() {
    let procs = vec![ProcessInfo { pid: 1, parent_pid: 0, name: "init".to_string() }];
    let conns = vec![Connection {
        pid: 1,
        local_addr: "0.0.0.0:22".to_string(),
        remote_addr: "0.0.0.0:0".to_string(),
        state: tcp_state(2),
    }];
    let s = capture(procs.clone(), conns.clone());
    assert_eq!(s.processes, procs);
    assert_eq!(s.connections, conns);
    assert!(s.timestamp > 0, "the clock reads after the epoch");
}

#[test]
fn snapshot_default_and_clone() {
    let s = Snapshot::default();
    assert_eq!(s.timestamp, 0);
    assert!(s.processes.is_empty());
    assert!(s.connections.is_empty());
    let t = Snapshot {
        timestamp: 7,
        processes: vec![ProcessInfo { pid: 2, parent_pid: 1, name: "sh".to_string() }],
        connections: vec![],
    };
    assert_eq!(t.clone(), t);
}

#[test]
fn same_record_compares_all_fields() {
    let a = Connection {
        pid: 1,
        local_addr: "127.0.0.1:1".to_string(),
        remote_addr: "8.8.8.8:443".to_string(),
        state: "ESTABLISHED".to_string(),
    };
    let mut b = a.clone();
    assert!(a.same_record(&b));
    b.state = "TIME_WAIT".to_string();
    assert!(!a.same_record(&b));
}

#[test]
fn sock_text_parses_back() {
    for (addr, port) in [(0x0808_0808u32, 443u16), (0, 0), (0x7f00_0001, 5432), (0xffff_ffff, 65535), (0x0a00_0005, 80)] {
        let text = sock(addr, port);
        let ip = parse_ipv4(&text).expect("formatted endpoint parses");
        assert_eq!(
            ip,
            Ipv4 {
                a: (addr >> 24) as u8,
                b: (addr >> 16) as u8,
                c: (addr >> 8) as u8,
                d: addr as u8
            }
        );
    }
}
