use sfz::Args;
use sfz::ConfigError;

fn args_with(host: &str, port: u16) -> Args {
    Args {
        address: host.to_string(),
        port,
        cache: 0,
        cors: false,
        compress: true,
        path: "/srv".to_string(),
        all: false,
        ignore: true,
        follow_links: false,
    }
}

fn accepts(host: &str, port: u16) -> bool {
    args_with(host, port).address().is_ok()
}

#[test]
fn ipv4_host_resolves() {
    let a = args_with("0.0.0.0", 8080).address().unwrap();
    assert_eq!(a.host, "0.0.0.0");
    assert_eq!(a.port, 8080);
}

#[test]
fn junk_host_is_invalid_address() {
    let r = args_with("not-a-host!", 8080).address();
    assert_eq!(
        r,
        Err(ConfigError::InvalidAddress { host: "not-a-host!".to_string(), port: 8080 })
    );
}

#[test]
fn hostname_is_not_a_literal() {
    assert!(!accepts("localhost", 80));
    assert!(!accepts("example.com", 80));
}

#[test]
fn empty_host_is_invalid() {
    assert!(!accepts("", 8080));
}

#[test]
fn plain_ipv4_literals() {
    assert!(accepts("127.0.0.1", 0));
    assert!(accepts("255.255.255.255", 65535));
    assert!(accepts("192.168.0.1", 3000));
}

#[test]
fn bad_ipv4_literals() {
    assert!(!accepts("256.1.1.1", 80));
    assert!(!accepts("01.2.3.4", 80));
    assert!(!accepts("1.2.3", 80));
    assert!(!accepts("1.2.3.4.5", 80));
    assert!(!accepts("1..2.3", 80));
    assert!(!accepts("1.2.3.4.", 80));
    assert!(!accepts(".1.2.3.4", 80));
    assert!(!accepts("1234.1.1.1", 80));
}

#[test]
fn host_with_embedded_port_is_rejected() {
    assert!(!accepts("0.0.0.0:8080", 9090));
    assert!(!accepts("[::1]:8080", 9090));
}

#[test]
fn bracketed_ipv6_literals() {
    assert!(accepts("[::1]", 8080));
    assert!(accepts("[::]", 8080));
    assert!(accepts("[1:2:3:4:5:6:7:8]", 8080));
    assert!(accepts("[0:0:0:0:0:0:0:1]", 8080));
    assert!(accepts("[fe80::1]", 8080));
    assert!(accepts("[::ffff:192.168.0.1]", 8080));
    assert!(accepts("[1:2:3:4:5:6:192.168.0.1]", 8080));
    assert!(accepts("[1::192.168.0.1]", 8080));
    assert!(accepts("[1:2:3:4:5:6:7::]", 8080));
    assert!(accepts("[::0001]", 8080));
    assert!(accepts("[abcd:ef01::]", 8080));
}

#[test]
fn bad_ipv6_literals() {
    assert!(!accepts("::1", 8080));
    assert!(!accepts("[::1", 8080));
    assert!(!accepts("::1]", 8080));
    assert!(!accepts("[1:2:3:4:5:6:7:8:9]", 8080));
    assert!(!accepts("[1::2::3]", 8080));
    assert!(!accepts("[12345::]", 8080));
    assert!(!accepts("[:::]", 8080));
    assert!(!accepts("[1:2:3:4:5:6:7:8::]", 8080));
    assert!(!accepts("[192.168.0.1::]", 8080));
    assert!(!accepts("[1:2:192.168.0.1:3::]", 8080));
    assert!(!accepts("[g::1]", 8080));
    assert!(!accepts("[1:]", 8080));
    assert!(!accepts("[:1]", 8080));
    assert!(!accepts("[]", 8080));
}

#[test]
fn scoped_ipv6_literals() {
    assert!(accepts("[::1%0]", 8080));
    assert!(accepts("[fe80::1%25]", 8080));
    assert!(accepts("[fe80::1%4294967295]", 8080));
    assert!(!accepts("[fe80::1%4294967296]", 8080));
    assert!(!accepts("[fe80::1%]", 8080));
    assert!(!accepts("[fe80::1%eth0]", 8080));
    assert!(!accepts("[%0]", 8080));
}

#[test]
fn port_is_always_in_range() {
    assert!(accepts("10.0.0.1", 0));
    assert!(accepts("10.0.0.1", 65535));
}

#[test]
fn address_is_deterministic() {
    let a = args_with("[::1]", 443);
    assert_eq!(a.address(), a.address());
}
