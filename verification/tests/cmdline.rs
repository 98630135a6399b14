use netconsole::driver::cmdline::{
    config_banner, parse_cmdline, parse_explained, scan_cmdline, scan_explained, CmdlineRefusal,
    ParsedConfig,
};
use netconsole::driver::module::cmdline_config;
use netconsole::error::{Error, EINVAL};
use netconsole::net::ip::{IpAddr, Ipv4Addr};
use netconsole::net::mac::MacAddr;

fn parse_ip(text: &[u8]) -> Option<IpAddr> {
    let mut octets = Vec::new();
    for part in std::str::from_utf8(text).ok()?.split('.') {
        octets.push(part.parse::<u8>().ok()?);
    }
    Some(IpAddr::V4(Ipv4Addr(octets.try_into().ok()?)))
}

fn name(s: &[u8]) -> [u8; 16] {
    let mut buf = [0u8; 16];
    buf[..s.len()].copy_from_slice(s);
    buf
}

fn parse(text: &[u8]) -> Result<ParsedConfig, Error> {
    parse_cmdline(text, parse_ip)
}

#[test]
fn everything_on_the_command_line() {
    let cfg = parse(b"+r6000@10.0.0.1/eth1,9353@10.0.0.2/12:34:56:78:9a:bc\n").unwrap();
    assert_eq!(
        cfg,
        ParsedConfig {
            extended: true,
            release: true,
            local_port: 6000,
            remote_port: 9353,
            dev_name: name(b"eth1"),
            local_ip: IpAddr::V4(Ipv4Addr([10, 0, 0, 1])),
            remote_ip: IpAddr::V4(Ipv4Addr([10, 0, 0, 2])),
            remote_mac: MacAddr::new([0x12, 0x34, 0x56, 0x78, 0x9a, 0xbc]),
        }
    );
}

fn target() -> IpAddr {
    IpAddr::V4(Ipv4Addr([10, 0, 0, 2]))
}

fn defaults_to_target() -> ParsedConfig {
    ParsedConfig { remote_ip: target(), ..ParsedConfig::new() }
}

#[test]
fn parts_left_out_keep_their_defaults() {
    assert_eq!(parse(b"@/,@10.0.0.2/"), Ok(defaults_to_target()));
    assert_eq!(parse(b""), Ok(ParsedConfig::new()));
    assert_eq!(parse(b"\n"), Ok(ParsedConfig::new()));
}

#[test]
fn the_target_address_may_not_be_left_out() {
    for text in [
        &b"6665@10.0.0.1/eth0,6666@/12:34:56:78:9a:bc"[..],
        b"@/,@/",
        b"@10.0.0.1/,@/\n",
        b"@/,@nowhere/",
        b"@/,@10.0.0/",
    ] {
        assert_eq!(parse(text), Err(Error(EINVAL)));
        assert_eq!(parse_explained(text, parse_ip), Err(CmdlineRefusal::NoTargetAddress));
    }
}

#[test]
fn line_ends_behind_a_command_line_do_not_count() {
    for text in [&b"+r1@10.0.0.1/eth1,2@10.0.0.2/12:34:56:78:9a:bc"[..], b"@/,@10.0.0.2/", b"", b"x"] {
        for tail in [&b"\n"[..], b"\r\n", b"\n\r\r\n\n"] {
            assert_eq!(parse(&[text, tail].concat()), parse(text));
        }
    }
}

#[test]
fn default_configuration() {
    let cfg = ParsedConfig::new();
    assert!(!cfg.extended && !cfg.release);
    assert_eq!(cfg.dev_name, name(b"eth0"));
    assert_eq!((cfg.local_port, cfg.remote_port), (6665, 6666));
    assert_eq!(cfg.local_ip, IpAddr::V4(Ipv4Addr([0, 0, 0, 0])));
    assert_eq!(cfg.remote_mac, MacAddr::broadcast());
}

#[test]
fn parts_that_do_not_parse_keep_their_defaults() {
    let cfg = parse(b"x@y/,70000@10.0.0.2/no-mac").unwrap();
    assert_eq!(cfg, defaults_to_target());
}

#[test]
fn extended_without_release() {
    let cfg = parse(b"+@/,@10.0.0.2/").unwrap();
    assert!(cfg.extended && !cfg.release);
}

#[test]
fn release_without_extended_is_refused() {
    assert_eq!(parse(b"r@/,@10.0.0.2/"), Err(Error(EINVAL)));
}

#[test]
fn refusals_name_their_reason() {
    for (text, reason, message) in [
        (
            &b"r@/,@10.0.0.2/"[..],
            CmdlineRefusal::ReleaseNeedsExtended,
            "netconsole: release feature requires extended log message\n",
        ),
        (
            b"6665",
            CmdlineRefusal::NoSourceAt,
            "netconsole: couldn't parse config - missing '@'\n",
        ),
        (b"+r", CmdlineRefusal::NoSourceAt, "netconsole: couldn't parse config - missing '@'\n"),
        (
            b"@10.0.0.1",
            CmdlineRefusal::NoSourceSlash,
            "netconsole: couldn't parse config - missing '/'\n",
        ),
        (b"@/eth0", CmdlineRefusal::NoComma, "netconsole: couldn't parse config - missing ','\n"),
        (
            b"@/eth0,6666",
            CmdlineRefusal::NoTargetAt,
            "netconsole: couldn't parse config - missing second '@'\n",
        ),
        (
            b"@/,@10.0.0.2",
            CmdlineRefusal::NoTargetSlash,
            "netconsole: couldn't parse config - missing final '/'\n",
        ),
    ] {
        assert_eq!(scan_explained(text).err(), Some(reason));
        assert_eq!(scan_cmdline(text).err(), Some(Error(EINVAL)));
        assert_eq!(parse_explained(text, parse_ip), Err(reason));
        assert_eq!(parse(text), Err(Error(EINVAL)));
        assert_eq!(reason.message(), message);
        assert_eq!(reason.error(), Error(EINVAL));
    }
    assert_eq!(
        CmdlineRefusal::NoTargetAddress.message(),
        "netconsole: couldn't parse config - missing target address\n"
    );
}

#[test]
fn long_device_names_are_cut() {
    let cfg = parse(b"@/12345678901234567890,@10.0.0.2/").unwrap();
    assert_eq!(&cfg.dev_name, b"123456789012345\0");
}

#[test]
fn signs_and_zeros_in_ports() {
    let cfg = parse(b"+7@/,007@10.0.0.2/").unwrap();
    assert!(cfg.extended);
    assert_eq!((cfg.local_port, cfg.remote_port), (7, 7));
    assert_eq!(parse(b"++7@/,@10.0.0.2/").unwrap().local_port, 7);
}

#[test]
fn given_addresses_are_used() {
    let fields = scan_cmdline(b"@a/,@b/").unwrap();
    assert_eq!(fields.local_ip, b"a");
    assert_eq!(fields.remote_ip, b"b");
    let ip = IpAddr::V4(Ipv4Addr([1, 2, 3, 4]));
    let cfg = fields.resolve(None, ip);
    assert_eq!(cfg.local_ip, IpAddr::default());
    assert_eq!(cfg.remote_ip, ip);
}

#[test]
fn banner_of_a_configuration() {
    let cfg = parse(b"+r6000@10.0.0.1/eth1,9353@10.0.0.2/12:34:56:78:9a:bc").unwrap();
    let lines = config_banner(&cfg, b"10.0.0.1", b"10.0.0.2");
    let text: Vec<String> = lines.iter().map(|l| String::from_utf8(l.clone()).unwrap()).collect();
    assert_eq!(
        text,
        vec![
            "netconsole: local port 6000\n",
            "netconsole: local IP address 10.0.0.1\n",
            "netconsole: interface 'eth1'\n",
            "netconsole: remote port 9353\n",
            "netconsole: remote IP address 10.0.0.2\n",
            "netconsole: remote ethernet address 12:34:56:78:9a:bc\n",
            "netconsole: extended console enabled\n",
            "netconsole: release prepend enabled\n",
        ]
    );
}

#[test]
fn banner_without_a_printable_interface() {
    let mut cfg = ParsedConfig::new();
    assert_eq!(config_banner(&cfg, b"0.0.0.0", b"0.0.0.0").len(), 6);
    cfg.dev_name = [0u8; 16];
    assert_eq!(config_banner(&cfg, b"0.0.0.0", b"0.0.0.0").len(), 5);
    cfg.dev_name = name(b"\xff");
    assert_eq!(config_banner(&cfg, b"0.0.0.0", b"0.0.0.0").len(), 5);
}

#[test]
fn module_parameter() {
    assert_eq!(cmdline_config(None, parse_ip), (None, None));
    assert_eq!(cmdline_config(Some(&b""[..]), parse_ip), (None, None));
    assert_eq!(cmdline_config(Some(&b"nonsense"[..]), parse_ip), (None, Some(CmdlineRefusal::NoSourceAt)));
    assert_eq!(cmdline_config(Some(&b"\n"[..]), parse_ip), (Some(ParsedConfig::new()), None));
    assert_eq!(
        cmdline_config(Some(&b"@/,@/"[..]), parse_ip),
        (None, Some(CmdlineRefusal::NoTargetAddress))
    );
    assert_eq!(
        cmdline_config(Some(&b"@/,@10.0.0.2/"[..]), parse_ip),
        (Some(defaults_to_target()), None)
    );
}
