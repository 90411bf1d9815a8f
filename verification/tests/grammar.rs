use sfz::check_host;
use sfz::check_ipv4;
use sfz::check_ipv6;

#[test]
fn ipv4_checker() {
    assert!(check_ipv4("0.0.0.0"));
    assert!(check_ipv4("255.0.10.1"));
    assert!(!check_ipv4("255.0.10"));
    assert!(!check_ipv4("256.0.10.1"));
    assert!(!check_ipv4("02.0.10.1"));
    assert!(!check_ipv4("2.0.10.1 "));
    assert!(!check_ipv4(""));
}

#[test]
fn ipv6_checker() {
    assert!(check_ipv6("::"));
    assert!(check_ipv6("::1"));
    assert!(check_ipv6("1::"));
    assert!(check_ipv6("1:2:3:4:5:6:7:8"));
    assert!(check_ipv6("1:2:3:4:5:6:7::"));
    assert!(check_ipv6("fe80::204:61ff:fe9d:f156"));
    assert!(check_ipv6("::ffff:10.0.0.3"));
    assert!(check_ipv6("1:2:3:4:5:6:10.0.0.3"));
    assert!(!check_ipv6("1:2:3:4:5:6:7:8:9"));
    assert!(!check_ipv6("1:2:3:4:5:6:7"));
    assert!(!check_ipv6(":"));
    assert!(!check_ipv6(":::"));
    assert!(!check_ipv6("1:::2"));
    assert!(!check_ipv6("10.0.0.3::"));
    assert!(!check_ipv6("::10.0.0.3:1"));
    assert!(!check_ipv6("12345::1"));
    assert!(!check_ipv6("g::1"));
    assert!(!check_ipv6(""));
}

#[test]
fn host_checker() {
    assert!(check_host("10.0.0.1"));
    assert!(check_host("[::1]"));
    assert!(check_host("[fe80::1%3]"));
    assert!(!check_host("::1"));
    assert!(!check_host("[::1"));
    assert!(!check_host("fe80::1%3"));
    assert!(!check_host("server"));
}
