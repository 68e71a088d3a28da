use geoip_columns::address::{parse, parse_bytes, Address};

#[test]
fn parses_dotted_quad() {
    assert_eq!(parse("8.8.8.8"), Some(Address::V4([8, 8, 8, 8])));
    assert_eq!(parse("255.0.10.199"), Some(Address::V4([255, 0, 10, 199])));
    assert_eq!(parse("0.0.0.0"), Some(Address::V4([0, 0, 0, 0])));
    assert_eq!(parse_bytes(b"192.0.2.1"), Some(Address::V4([192, 0, 2, 1])));
}

#[test]
fn rejects_malformed_dotted_quad() {
    for text in [
        "", "1.2.3", "1.2.3.4.5", "256.1.1.1", "01.2.3.4", "1..2.3", "1.2.3.", ".1.2.3", " 1.2.3.4",
        "1.2.3.4 ", "+1.2.3.4", "1.2.3.4a", "1000.1.1.1", "1.2.3.04", "a.b.c.d", "not-an-ip",
    ] {
        assert_eq!(parse(text), None, "text {:?}", text);
    }
}

#[test]
fn parses_full_groups() {
    assert_eq!(parse("1:2:3:4:5:6:7:8"), Some(Address::V6([1, 2, 3, 4, 5, 6, 7, 8])));
    assert_eq!(parse("0:0:0:0:0:0:0:0"), Some(Address::V6([0, 0, 0, 0, 0, 0, 0, 0])));
    assert_eq!(
        parse("2001:0db8:85a3:0000:0000:8A2E:0370:7334"),
        Some(Address::V6([0x2001, 0x0db8, 0x85a3, 0, 0, 0x8a2e, 0x0370, 0x7334]))
    );
    assert_eq!(
        parse("ffff:FFFF:ffff:FFFF:ffff:FFFF:ffff:FFFF"),
        Some(Address::V6([0xffff, 0xffff, 0xffff, 0xffff, 0xffff, 0xffff, 0xffff, 0xffff]))
    );
}

#[test]
fn parses_compressed_groups() {
    assert_eq!(parse("::"), Some(Address::V6([0, 0, 0, 0, 0, 0, 0, 0])));
    assert_eq!(parse("::1"), Some(Address::V6([0, 0, 0, 0, 0, 0, 0, 1])));
    assert_eq!(parse("1::"), Some(Address::V6([1, 0, 0, 0, 0, 0, 0, 0])));
    assert_eq!(parse("2001:DB8::Ab"), Some(Address::V6([0x2001, 0xdb8, 0, 0, 0, 0, 0, 0xab])));
    assert_eq!(parse("1:2:3:4:5:6:7::"), Some(Address::V6([1, 2, 3, 4, 5, 6, 7, 0])));
    assert_eq!(parse("::1:2:3:4:5:6:7"), Some(Address::V6([0, 1, 2, 3, 4, 5, 6, 7])));
    assert_eq!(parse("1:2:3:4::5:6:7"), Some(Address::V6([1, 2, 3, 4, 0, 5, 6, 7])));
    assert_eq!(parse("::0000:0001"), Some(Address::V6([0, 0, 0, 0, 0, 0, 0, 1])));
}

#[test]
fn parses_embedded_dotted_quad() {
    assert_eq!(parse("::ffff:1.2.3.4"), Some(Address::V6([0, 0, 0, 0, 0, 0xffff, 0x0102, 0x0304])));
    assert_eq!(parse("::1.2.3.4"), Some(Address::V6([0, 0, 0, 0, 0, 0, 0x0102, 0x0304])));
    assert_eq!(
        parse("1:2:3:4:5:6:255.254.0.1"),
        Some(Address::V6([1, 2, 3, 4, 5, 6, 0xfffe, 0x0001]))
    );
    assert_eq!(parse("1:2:3:4:5::1.2.3.4"), Some(Address::V6([1, 2, 3, 4, 5, 0, 0x0102, 0x0304])));
    assert_eq!(parse("64:ff9b::192.0.2.33"), Some(Address::V6([0x64, 0xff9b, 0, 0, 0, 0, 0xc000, 0x0221])));
}

#[test]
fn rejects_malformed_groups() {
    for text in [
        "1:2:3:4:5:6:7", "1:2:3:4:5:6:7:8:9", "1:2:3:4:5:6:7::8", "1::2::3", ":::", ":", "1:",
        ":1", "1:2:3:4:5:6:7:1.2.3.4", "1.2.3.4::", "::1.2.3.4:5", "::01.2.3.4", "fe80::1%eth0",
        "12345::", "g::1", ":1::2", "1:::2", "1:2:3:4:5:6::1.2.3.4", "1:2:3:4::5:6:7:8",
        "1:2:3:4:5:6:7:8::", "::1:2:3:4:5:6:7:8", "1:2:3:4:5:1.2.3.4", "::1.2.3", "::1.2.3.256",
        "[::1]", "::1/128", "1:2:3:4:5:6:7:", ":1:2:3:4:5:6:7",
    ] {
        assert_eq!(parse(text), None, "text {:?}", text);
    }
}

#[test]
fn rejects_text_beyond_ascii() {
    assert_eq!(parse("８.8.8.8"), None);
    assert_eq!(parse("1.2.3.4\u{fffd}"), None);
    assert_eq!(parse_bytes(&[0x38, 0x2e, 0x38, 0x2e, 0x38, 0x2e, 0xff]), None);
}
