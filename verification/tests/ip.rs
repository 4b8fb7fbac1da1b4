use blueshoes::ip::{canonical_ip, parse_ip, IpAddr};

#[test]
fn dotted_quads_read_strictly() {
    assert_eq!(canonical_ip("1.1.1.1").as_deref(), Some("1.1.1.1"));
    assert_eq!(canonical_ip("255.255.255.255").as_deref(), Some("255.255.255.255"));
    for bad in ["256.1.1.1", "01.1.1.1", "1.1.1", "1.1.1.1.1", "1..1.1", " 1.1.1.1", "+1.1.1.1", ""] {
        assert_eq!(canonical_ip(bad), None, "{}", bad);
    }
    match parse_ip("10.0.0.1") {
        Some(IpAddr::V4(o)) => assert_eq!(o, vec![10, 0, 0, 1]),
        other => panic!("{:?}", other),
    }
}

#[test]
fn ipv6_text_is_canonical() {
    let cases = [
        ("::1", "::1"),
        ("::", "::"),
        ("fe80::1", "fe80::1"),
        ("FE80:0:0:0:0:0:0:1", "fe80::1"),
        ("2001:db8:0:0:1:0:0:1", "2001:db8::1:0:0:1"),
        ("1:0:0:1:0:0:0:1", "1:0:0:1::1"),
        ("1:2:3:4:5:6:7:8", "1:2:3:4:5:6:7:8"),
        ("1:0:2:3:4:5:6:7", "1:0:2:3:4:5:6:7"),
        ("::ffff:192.0.2.1", "::ffff:192.0.2.1"),
        ("::192.0.2.1", "::c000:201"),
        ("0:0:0:0:0:ffff:c000:0201", "::ffff:192.0.2.1"),
        ("2001:db8::", "2001:db8::"),
    ];
    for (input, text) in cases {
        assert_eq!(canonical_ip(input).as_deref(), Some(text), "{}", input);
    }
    for bad in [":", ":::", "1::2::3", "12345::", "1:2:3:4:5:6:7:8:9", "1:2:3:4:5:6:7", "::g", "1::2:3:4:5:6:7:8", "fe80::1%3"] {
        assert_eq!(canonical_ip(bad), None, "{}", bad);
    }
}
