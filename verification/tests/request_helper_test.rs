use bios_basic::helper::request_helper::{first_list_item, forwarded_for, mapped_ipv6_to_ipv4, select_real_ip, sort_hashmap_query, sort_query, IpAddress};

#[test]
fn test_forwarded_for() {
    assert_eq!(forwarded_for("Forwarded: for=192.168.0.11; proto=http"), Some("192.168.0.11".to_string()));
    assert_eq!(forwarded_for("Forwarded: for=192.168.0.9, 192.168.0.11; proto=http"), Some("192.168.0.9".to_string()));
    assert_eq!(forwarded_for("Forwarded: proto=http; for=192.168.0.12"), Some("192.168.0.12".to_string()));
    assert_eq!(forwarded_for("Forwarded: for=192.168.0.10"), Some("192.168.0.10".to_string()));
    // the text is found; reading it as an address fails elsewhere
    assert_eq!(forwarded_for("Forwarded: proto=http; for=192.168.0"), Some("192.168.0".to_string()));
    assert_eq!(forwarded_for("for=192.168.0.10"), None);
    assert_eq!(forwarded_for("Forwarded: proto=http"), None);
}

#[test]
fn test_first_list_item() {
    assert_eq!(first_list_item(" 10.0.0.1 , 10.0.0.2"), "10.0.0.1");
    assert_eq!(first_list_item("10.0.0.3"), "10.0.0.3");
    assert_eq!(first_list_item(""), "");
}

#[test]
fn test_mapped_ipv6_to_ipv4() {
    // ::ffff:192.168.0.11 and ::ffff:c0a8:000b
    assert_eq!(mapped_ipv6_to_ipv4(IpAddress::V6(0, 0, 0, 0, 0, 0xffff, 0xc0a8, 0x000b)), IpAddress::V4(192, 168, 0, 11));
    assert_eq!(mapped_ipv6_to_ipv4(IpAddress::V4(192, 168, 0, 11)), IpAddress::V4(192, 168, 0, 11));
    // fd00::1a2b:3c4d:5e6f:7a8b
    let v6 = IpAddress::V6(0xfd00, 0, 0, 0, 0x1a2b, 0x3c4d, 0x5e6f, 0x7a8b);
    assert_eq!(mapped_ipv6_to_ipv4(v6), v6);
    // ::1
    let loopback = IpAddress::V6(0, 0, 0, 0, 0, 0, 0, 1);
    assert_eq!(mapped_ipv6_to_ipv4(loopback), loopback);
}

#[test]
fn test_select_real_ip() {
    let a = IpAddress::V4(1, 1, 1, 1);
    let b = IpAddress::V4(2, 2, 2, 2);
    let mapped = IpAddress::V6(0, 0, 0, 0, 0, 0xffff, 0x0303, 0x0303);
    assert_eq!(select_real_ip(Some(a), Some(b), None, None), Some(a));
    assert_eq!(select_real_ip(None, Some(b), Some(a), None), Some(b));
    assert_eq!(select_real_ip(None, None, None, Some(mapped)), Some(IpAddress::V4(3, 3, 3, 3)));
    assert_eq!(select_real_ip(None, None, None, None), None);
}

#[test]
fn test_sort_query() {
    assert_eq!(sort_query(""), "");
    assert_eq!(sort_query("b=2&a=1&C=3"), "a=1&b=2&c=3");
    assert_eq!(sort_query("b=2&A=1"), "a=1&b=2");
    assert_eq!(sort_query("B=1&b=1&a=0"), "a=0&b=1&b=1");
    assert_eq!(sort_query("x=1"), "x=1");
}

#[test]
fn test_sort_hashmap_query() {
    assert_eq!(sort_hashmap_query(&vec![]), "");
    let q = vec![("b".to_string(), "2".to_string()), ("A".to_string(), "1".to_string())];
    assert_eq!(sort_hashmap_query(&q), "a=1&b=2");
}
