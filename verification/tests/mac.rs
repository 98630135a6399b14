use netconsole::net::mac::MacAddr;

#[test]
fn test_mac_roundtrip() {
    for addr in ["aa:bb:cc:11:22:33", "00:00:00:00:00:01"] {
        let parsed = MacAddr::parse_ascii(addr.as_bytes()).unwrap();
        let mut buf = [0u8; 17];
        parsed.format_into(&mut buf);
        assert_eq!(addr.as_bytes(), &buf[..]);
    }

    for addr in ["aa:bb:cc:11", "aa:bb:cc:11:22:33:44"] {
        assert!(MacAddr::parse_ascii(addr.as_bytes()).is_err());
    }
}
