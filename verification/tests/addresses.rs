use netconsole::error::{Error, EINVAL};
use netconsole::net::ip::{IpAddr, Ipv4Addr, Ipv6Addr};
use netconsole::net::mac::{hex_digit, MacAddr};

#[test]
fn parses_either_separator_and_case() {
    let mac = MacAddr::new([0xaa, 0xbb, 0xcc, 0x11, 0x22, 0x33]);
    for text in ["aa:bb:cc:11:22:33", "AA-BB-CC-11-22-33", "aA:Bb-cC:11-22:33\r\n"] {
        assert_eq!(MacAddr::parse_ascii(text.as_bytes()), Ok(mac));
    }
    assert_eq!(mac.to_string(), "aa:bb:cc:11:22:33");
}

#[test]
fn refuses_other_mac_texts() {
    for text in [
        "",
        "aa:bb:cc:11:22:3",
        "aa:bb:cc:11:22:333",
        "aa:bb:cc:11:22:3g",
        "aabbcc112233",
        "aa.bb.cc.11.22.33",
        "aa:bb:cc:11:22 33",
        " aa:bb:cc:11:22:33",
    ] {
        assert_eq!(MacAddr::parse_ascii(text.as_bytes()), Err(Error(EINVAL)));
    }
}

#[test]
fn mac_formats_into_a_longer_buffer() {
    let mut buf = [b'.'; 20];
    assert_eq!(MacAddr::broadcast().format_into(&mut buf), 17);
    assert_eq!(&buf, b"ff:ff:ff:ff:ff:ff...");
}

#[test]
fn mac_examples() {
    let addr = MacAddr::parse_ascii(b"aa-bb-cc-11-22-33").unwrap();
    assert_eq!(MacAddr::new([0xaa, 0xbb, 0xcc, 0x11, 0x22, 0x33]), addr);
    let addr = MacAddr::new([0xab, 0xcd, 0xef, 0x12, 0x34, 0x56]);
    let mut buf = [0u8; 20];
    let len = addr.format_into(&mut buf);
    assert_eq!(b"ab:cd:ef:12:34:56", &buf[..len]);
}

#[test]
fn mac_dereferences_to_its_bytes() {
    let mut mac = MacAddr::default();
    assert_eq!(*mac, [0u8; 6]);
    mac[0] = 2;
    assert_eq!(mac.to_string(), "02:00:00:00:00:00");
    assert_eq!(MacAddr::ALEN, 6);
}

#[test]
fn every_byte_round_trips_in_a_mac() {
    for b in 0..=255u8 {
        let mac = MacAddr::new([b, 0, b, 1, b, 2]);
        assert_eq!(mac.to_string(), format!("{:02x}:00:{:02x}:01:{:02x}:02", b, b, b));
        assert_eq!(MacAddr::parse_ascii(mac.to_string().as_bytes()), Ok(mac));
    }
}

#[test]
fn hexadecimal_digits() {
    assert_eq!(hex_digit(b'0'), Ok(0));
    assert_eq!(hex_digit(b'9'), Ok(9));
    assert_eq!(hex_digit(b'a'), Ok(10));
    assert_eq!(hex_digit(b'F'), Ok(15));
    assert_eq!(hex_digit(b'g'), Err(Error(EINVAL)));
    assert_eq!(hex_digit(b'/'), Err(Error(EINVAL)));
}

#[test]
fn addresses_as_bytes() {
    assert_eq!(IpAddr::default(), IpAddr::V4(Ipv4Addr([0, 0, 0, 0])));
    assert_eq!(
        IpAddr::V4(Ipv4Addr([10, 0, 0, 2])).to_inet_bytes(),
        [10, 0, 0, 2, 0, 0, 0, 0, 0, 0, 0, 0, 0, 0, 0, 0]
    );
    let mut v6 = [0u8; 16];
    v6[0] = 0xfe;
    v6[15] = 1;
    assert_eq!(IpAddr::V6(Ipv6Addr(v6)).to_inet_bytes(), v6);
}
