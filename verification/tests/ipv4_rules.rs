use connectivity_monitor::ipv4::is_valid_ipv4;

#[test]
fn accepts_dotted_quads() {
    assert!(is_valid_ipv4("192.168.1.1"));
    assert!(is_valid_ipv4("0.0.0.0"));
    assert!(is_valid_ipv4("255.255.255.255"));
    assert!(is_valid_ipv4("10.0.0.254"));
    assert!(is_valid_ipv4("8.8.8.8"));
}

#[test]
fn rejects_out_of_range_octets() {
    assert!(!is_valid_ipv4("256.1.1.1"));
    assert!(!is_valid_ipv4("1.1.1.300"));
    assert!(!is_valid_ipv4("1234.1.1.1"));
}

#[test]
fn rejects_leading_zeros() {
    assert!(!is_valid_ipv4("01.1.1.1"));
    assert!(!is_valid_ipv4("1.1.1.00"));
    assert!(!is_valid_ipv4("192.168.001.1"));
}

#[test]
fn rejects_wrong_shapes() {
    assert!(!is_valid_ipv4(""));
    assert!(!is_valid_ipv4("1.1.1"));
    assert!(!is_valid_ipv4("1.1.1.1.1"));
    assert!(!is_valid_ipv4("1..1.1"));
    assert!(!is_valid_ipv4("1.1.1.1."));
    assert!(!is_valid_ipv4(".1.1.1"));
    assert!(!is_valid_ipv4("a.b.c.d"));
    assert!(!is_valid_ipv4(" 1.1.1.1"));
    assert!(!is_valid_ipv4("1.1.1.1 "));
    assert!(!is_valid_ipv4("1.1.1.+1"));
    assert!(!is_valid_ipv4("１.1.1.1"));
    assert!(!is_valid_ipv4("192.168.1.1/24"));
    assert!(!is_valid_ipv4("::1"));
}

#[test]
fn mixed_samples() {
    let samples = [
        ("127.0.0.1", true),
        ("1.2.3.4", true),
        ("12.34.56.78", true),
        ("999.1.1.1", false),
        ("001.2.3.4", false),
        ("0.0.0.00", false),
        ("4.3.2.1.", false),
        ("255.255.255.256", false),
        ("1.1.1.1x", false),
        ("100.200.250.199", true),
    ];
    for (s, expected) in samples.iter() {
        assert_eq!(is_valid_ipv4(s), *expected, "{}", s);
    }
}

#[test]
fn rejects_long_inputs() {
    assert!(!is_valid_ipv4("192.168.100.1000"));
    assert!(!is_valid_ipv4("1.1.1.1111111111111111111111"));
    assert!(is_valid_ipv4("192.168.100.200"));
}
