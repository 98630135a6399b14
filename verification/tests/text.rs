use netconsole::bytes::{
    append_bytes, ascii_bytes, bytes_eq, copy_into, copy_line, position, strlen, to_vec,
    trim_newline,
};
use netconsole::cstr::CStr;
use netconsole::decimal::{format_u16, format_u32, format_u64, parse_u16, read_u16, write_decimal};
use netconsole::error::{to_result, Error, EINVAL, ENODEV, ENOMEM};
use netconsole::utf8::is_utf8;

#[test]
fn trims_any_run_of_line_ends() {
    assert_eq!(trim_newline(b"abc"), b"abc");
    assert_eq!(trim_newline(b"abc\n"), b"abc");
    assert_eq!(trim_newline(b"abc\r\n\n\r"), b"abc");
    assert_eq!(trim_newline(b"a\nb\n"), b"a\nb");
    assert_eq!(trim_newline(b" abc \n"), b" abc ");
    assert_eq!(trim_newline(b"\r\n"), b"");
    assert_eq!(trim_newline(b""), b"");
}

#[test]
fn trimming_twice_is_trimming_once() {
    for s in [&b"abc\r\n"[..], b"\n\n", b"x", b""] {
        let once = trim_newline(s);
        assert_eq!(trim_newline(once), once);
        let mut line = to_vec(s);
        line.push(b'\n');
        assert_eq!(trim_newline(&line), once);
    }
}

#[test]
fn finds_positions_and_lengths() {
    assert_eq!(position(b"a@b@", b'@'), Some(1));
    assert_eq!(position(b"ab", b'@'), None);
    assert_eq!(position(b"", b'@'), None);
    assert_eq!(strlen(b"eth0\0\0x"), 4);
    assert_eq!(strlen(b"eth0"), 4);
    assert_eq!(strlen(b"\0"), 0);
}

#[test]
fn copies_bytes() {
    let mut buf = *b"........";
    copy_into(&mut buf, b"abc");
    assert_eq!(&buf, b"abc.....");
    assert_eq!(copy_line(&mut buf, b"xy"), 3);
    assert_eq!(&buf, b"xy\n.....");
    let mut v = to_vec(b"ab");
    append_bytes(&mut v, b"cd");
    assert_eq!(v, b"abcd");
    assert!(bytes_eq(&v, b"abcd"));
    assert!(!bytes_eq(&v, b"abc"));
    assert!(!bytes_eq(&v, b"abce"));
    assert_eq!(ascii_bytes("netcon"), b"netcon");
}

#[test]
fn formats_numbers() {
    let mut buf = [0u8; 16];
    assert_eq!(format_u16(&mut buf, 0), b"0");
    assert_eq!(format_u16(&mut buf, 6665), b"6665");
    assert_eq!(format_u16(&mut buf, 65535), b"65535");
    assert_eq!(format_u32(&mut buf, 0), b"0");
    assert_eq!(format_u32(&mut buf, 4294967295), b"4294967295");
    let mut long = [0u8; 32];
    assert_eq!(format_u64(&mut long, 0), b"0");
    assert_eq!(format_u64(&mut long, 18446744073709551615), b"18446744073709551615");
    let mut small = [b'.'; 4];
    assert_eq!(write_decimal(&mut small, 70), 2);
    assert_eq!(&small, b"..70");
}

#[test]
fn reads_numbers() {
    assert_eq!(read_u16(b"6666"), Some(6666));
    assert_eq!(read_u16(b"+6666"), Some(6666));
    assert_eq!(read_u16(b"0000000007"), Some(7));
    assert_eq!(read_u16(b"65535"), Some(65535));
    assert_eq!(read_u16(b"65536"), None);
    assert_eq!(read_u16(b"99999999999999999999999"), None);
    for s in [&b""[..], b"+", b"-1", b"++1", b" 1", b"1 ", b"1a", b"0x1", b"\xff"] {
        assert_eq!(read_u16(s), None);
        assert_eq!(s.iter().map(|&c| c as char).collect::<String>().parse::<u16>().ok(), None);
    }
}

#[test]
fn parses_numbers_on_a_line() {
    assert_eq!(parse_u16(b"6665\n"), Ok(6665));
    assert_eq!(parse_u16(b"0\r\n"), Ok(0));
    assert_eq!(parse_u16(b""), Err(Error(EINVAL)));
    assert_eq!(parse_u16(b"\n"), Err(Error(EINVAL)));
    assert_eq!(parse_u16(b"70000\n"), Err(Error(EINVAL)));
    assert_eq!(parse_u16(b"abc\n"), Err(Error(EINVAL)));
}

#[test]
fn every_port_reads_back() {
    let mut buf = [0u8; 16];
    for port in 0..=65535u16 {
        let text = to_vec(format_u16(&mut buf, port));
        assert_eq!(text, port.to_string().as_bytes());
        assert_eq!(read_u16(&text), Some(port));
    }
}

#[test]
fn error_codes() {
    assert_eq!(to_result(0), Ok(()));
    assert_eq!(to_result(7), Ok(()));
    assert_eq!(to_result(-19), Err(Error(ENODEV)));
    assert_eq!(Error::from_errno(-12), Error(ENOMEM));
    assert_eq!(Error::from_errno(-22).to_errno(), -22);
    assert_eq!(Error::from_errno(5), Error(EINVAL));
    assert_eq!(Error::from_errno(-5000), Error(EINVAL));
}

#[test]
fn c_strings() {
    let s = CStr::from_bytes(b"eth0").unwrap();
    assert_eq!(s.to_bytes(), b"eth0");
    assert_eq!(s.to_bytes_with_nul(), b"eth0\0");
    assert!(s.same_as(&s.duplicate()));
    assert!(!s.same_as(&CStr::from_ascii("eth1")));
    assert!(CStr::from_bytes(b"a\0b").is_none());
    assert_eq!(CStr::from_bytes(b"").unwrap().to_bytes(), b"");
}

#[test]
fn recognises_utf8() {
    for s in [
        &b""[..],
        b"eth0",
        "\u{e9}th\u{fc}".as_bytes(),
        "\u{20ac}\u{1f600}".as_bytes(),
        b"\xff",
        b"\xc3",
        b"\xc0\x80",
        b"\xed\xa0\x80",
        b"\xf4\x90\x80\x80",
        b"a\x80",
        b"\xe2\x82",
        b"\xf0\x9f\x98\x80z",
    ] {
        assert_eq!(is_utf8(s), std::str::from_utf8(s).is_ok());
    }
}
