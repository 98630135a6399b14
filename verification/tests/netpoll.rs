use netconsole::cstr::CStr;
use netconsole::error::{Error, EINVAL, ENODEV};
use netconsole::net::ip::{IpAddr, Ipv4Addr, Ipv6Addr};
use netconsole::net::mac::MacAddr;
use netconsole::net::netpoll::{send_result, Netpoll, NetpollBuilder, NetpollRecord};

fn v4(a: u8, b: u8, c: u8, d: u8) -> Ipv4Addr {
    Ipv4Addr([a, b, c, d])
}

fn v6(last: u8) -> Ipv6Addr {
    let mut bytes = [0u8; 16];
    bytes[0] = 0xfe;
    bytes[1] = 0x80;
    bytes[15] = last;
    Ipv6Addr(bytes)
}

#[test]
fn builder_defaults() {
    for builder in [Netpoll::builder(), NetpollBuilder::new(), NetpollBuilder::default()] {
        let rec = builder.record();
        assert_eq!(rec.name.to_bytes(), b"netconsole");
        assert_eq!(rec.dev_name, [0u8; 16]);
        assert_eq!(rec.local_port, 6665);
        assert_eq!(rec.remote_port, 6666);
        assert!(!rec.ipv6);
        assert_eq!(rec.local_ip, [0u8; 16]);
        assert_eq!(rec.remote_ip, [0u8; 16]);
        assert_eq!(rec.remote_mac, [0xff; 6]);
    }
}

#[test]
fn builder_keeps_what_it_is_told() {
    let np = Netpoll::builder()
        .name(CStr::from_ascii("other"))
        .dev_name(&CStr::from_ascii("eth0"))
        .unwrap()
        .local_port(1)
        .remote_port(2)
        .local_ip_v4(v4(10, 0, 0, 1))
        .remote_ip_v4(v4(10, 0, 0, 2))
        .remote_mac(MacAddr::new([1, 2, 3, 4, 5, 6]))
        .build_uninitialized();
    assert_eq!(np.dev_name(), b"eth0");
    assert_eq!(np.local_port(), 1);
    assert_eq!(np.remote_port(), 2);
    assert!(!np.is_ipv6());
    assert!(!np.is_enabled());
    let rec = np.as_ptr();
    assert_eq!(rec.name.to_bytes(), b"other");
    assert_eq!(&rec.local_ip[..4], &[10, 0, 0, 1]);
    assert_eq!(&rec.remote_ip[..4], &[10, 0, 0, 2]);
    assert_eq!(rec.remote_mac, [1, 2, 3, 4, 5, 6]);
}

#[test]
fn device_names_have_to_fit() {
    let fits = NetpollBuilder::new().dev_name_bytes(b"123456789012345").unwrap();
    assert_eq!(fits.build_uninitialized().dev_name(), b"123456789012345");
    assert_eq!(
        NetpollBuilder::new().dev_name_bytes(b"1234567890123456").err(),
        Some(Error(EINVAL))
    );
    assert_eq!(
        NetpollBuilder::new().dev_name(&CStr::from_ascii("1234567890123456")).err(),
        Some(Error(EINVAL))
    );
}

#[test]
fn a_shorter_device_name_replaces_a_longer_one() {
    let np = NetpollBuilder::new()
        .dev_name_bytes(b"enp0s31f6")
        .unwrap()
        .dev_name_bytes(b"lo")
        .unwrap()
        .build_uninitialized();
    assert_eq!(np.dev_name(), b"lo");
}

#[test]
fn family_of_the_last_address() {
    let np = NetpollBuilder::new()
        .local_ip(IpAddr::V4(v4(10, 0, 0, 1)))
        .remote_ip(IpAddr::V6(v6(2)))
        .build_uninitialized();
    assert!(np.is_ipv6());
    assert_eq!(&np.as_ptr().local_ip[..4], &[10, 0, 0, 1]);
    assert_eq!(np.as_ptr().remote_ip, v6(2).0);
    let np = NetpollBuilder::new()
        .remote_ip_v6(v6(2))
        .local_ip_v4(v4(10, 0, 0, 1))
        .build_uninitialized();
    assert!(!np.is_ipv6());
    let np = NetpollBuilder::new().local_ip_v6(v6(1)).build_uninitialized();
    assert!(np.is_ipv6());
}

#[test]
fn setup_decides_whether_the_instance_exists() {
    let np = NetpollBuilder::new()
        .remote_port(9)
        .setup(|rec: NetpollRecord| (NetpollRecord { local_port: 7, ..rec }, 0))
        .unwrap();
    assert!(np.is_enabled());
    assert_eq!(np.local_port(), 7);
    assert_eq!(np.remote_port(), 9);
    let failed = NetpollBuilder::new().setup(|rec: NetpollRecord| (rec, -19));
    assert_eq!(failed.err(), Some(Error(ENODEV)));
}

#[test]
fn sending_needs_setup() {
    let off = NetpollBuilder::new().build_uninitialized();
    let r = off.send_udp(b"x", |_: &NetpollRecord, _: &[u8], _: i32| panic!("not set up"));
    assert_eq!(r, Err(Error(ENODEV)));
    let on = Netpoll::from_setup(NetpollBuilder::new().record(), 0).unwrap();
    let r = on.send_udp(b"hello", |rec: &NetpollRecord, msg: &[u8], len: i32| {
        assert_eq!(rec.remote_port, 6666);
        assert_eq!(msg, b"hello");
        len
    });
    assert_eq!(r, Ok(5));
    let r = on.send_udp(b"hello", |_: &NetpollRecord, _: &[u8], _: i32| -5);
    assert_eq!(r, Err(Error(-5)));
}

#[test]
fn sending_several_messages() {
    let msgs = vec![b"a".to_vec(), b"bc".to_vec()];
    let off = NetpollBuilder::new().build_uninitialized();
    let (n, results) =
        off.send_in_turn(&msgs, 5, |_: i32, _: &NetpollRecord, _: &[u8], _: i32| panic!("not set up"));
    assert_eq!(n, 5);
    assert_eq!(results, vec![Err(Error(ENODEV)), Err(Error(ENODEV))]);
    let on = Netpoll::from_setup(NetpollBuilder::new().record(), 0).unwrap();
    let log: Vec<Vec<u8>> = Vec::new();
    let (log, results) =
        on.send_in_turn(&msgs, log, |mut log: Vec<Vec<u8>>, _: &NetpollRecord, msg: &[u8], len: i32| {
            log.push(msg.to_vec());
            (log, if msg == b"a" { -len } else { len })
        });
    assert_eq!(log, msgs);
    assert_eq!(results, vec![Err(Error(-1)), Ok(2)]);
}

#[test]
fn send_codes() {
    assert_eq!(send_result(0), Ok(0));
    assert_eq!(send_result(12), Ok(12));
    assert_eq!(send_result(-1), Err(Error(-1)));
    assert_eq!(send_result(-100000), Err(Error(EINVAL)));
}

#[test]
fn only_what_was_set_up_is_cleaned_up() {
    let on = Netpoll::from_setup(NetpollBuilder::new().local_port(3).record(), 0).unwrap();
    assert_eq!(on.cleanup().unwrap().local_port, 3);
    assert!(NetpollBuilder::new().build_uninitialized().cleanup().is_none());
}
