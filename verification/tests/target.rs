use netconsole::driver::attribute::{parse_bool, show_bool, PAGE_SIZE};
use netconsole::driver::cmdline::ParsedConfig;
use netconsole::driver::sysdata::{
    format_sysdata_bytes, format_sysdata_u32, show_flag, store_flag, write_sysdata, SysdataFeature,
    SystemInfo, SYSDATA_CPU_NR, SYSDATA_MSGID, SYSDATA_RELEASE, SYSDATA_TASKNAME,
};
use netconsole::driver::target::NetconsoleTarget;
use netconsole::error::{Error, EBUSY, EINVAL, ENODEV};
use netconsole::net::ip::{IpAddr, Ipv4Addr, Ipv6Addr};
use netconsole::net::mac::MacAddr;
use netconsole::net::netpoll::NetpollRecord;

fn info() -> SystemInfo {
    let mut comm = [0u8; 16];
    comm[..6].copy_from_slice(b"kworkr");
    let mut release = [0u8; 65];
    release[..5].copy_from_slice(b"6.1.0");
    SystemInfo { cpu: 3, comm, release }
}

fn enabled() -> NetconsoleTarget {
    let mut t = NetconsoleTarget::new_with_config(None);
    assert!(t.enable(|rec: NetpollRecord| (rec, 0)).unwrap().is_none());
    t
}

fn page_of<F: FnOnce(&mut [u8; PAGE_SIZE]) -> usize>(show: F) -> Vec<u8> {
    let mut page = [b'.'; PAGE_SIZE];
    let n = show(&mut page);
    assert!(page[n..].iter().all(|&c| c == b'.'));
    page[..n].to_vec()
}

#[test]
fn truth_values() {
    for word in ["1", "y", "Y", "yes", "Yes", "YES", "true", "True", "TRUE"] {
        assert_eq!(parse_bool(word.as_bytes()), Ok(true));
        assert_eq!(parse_bool(format!("{}\n", word).as_bytes()), Ok(true));
    }
    for word in ["0", "n", "N", "no", "No", "NO", "false", "False", "FALSE"] {
        assert_eq!(parse_bool(word.as_bytes()), Ok(false));
        assert_eq!(parse_bool(format!("{}\r\n", word).as_bytes()), Ok(false));
    }
    for word in ["", "\n", "2", "on", "yEs", "tRUE", " 1", "1 ", "11"] {
        assert_eq!(parse_bool(word.as_bytes()), Err(Error(EINVAL)));
    }
    assert_eq!(page_of(|p| show_bool(true, p)), b"1\n");
    assert_eq!(page_of(|p| show_bool(false, p)), b"0\n");
}

#[test]
fn new_targets_show_the_defaults() {
    let t = NetconsoleTarget::new_with_config(None);
    assert_eq!(page_of(|p| t.show_enabled(p)), b"0\n");
    assert_eq!(page_of(|p| t.show_extended(p)), b"0\n");
    assert_eq!(page_of(|p| t.show_release(p)), b"0\n");
    assert_eq!(page_of(|p| t.show_dev_name(p)), b"eth0\n");
    assert_eq!(page_of(|p| t.show_local_port(p)), b"6665\n");
    assert_eq!(page_of(|p| t.show_remote_port(p)), b"6666\n");
    assert_eq!(page_of(|p| t.show_remote_mac(p)), b"ff:ff:ff:ff:ff:ff\n");
    assert_eq!(page_of(|p| t.show_transmit_errors(p)), b"0\n");
    assert_eq!(t.config.local_ip, IpAddr::default());
    assert_eq!(t.config.remote_ip, IpAddr::default());
}

#[test]
fn stored_attributes_are_shown() {
    let mut t = NetconsoleTarget::new_with_config(None);
    assert_eq!(t.store_extended(b"yes\n"), Ok(()));
    assert_eq!(t.store_release(b"1"), Ok(()));
    assert_eq!(t.store_dev_name(b"eth7\n"), Ok(()));
    assert_eq!(t.store_local_port(b"1\n"), Ok(()));
    assert_eq!(t.store_remote_port(b"65535\n"), Ok(()));
    assert_eq!(t.store_remote_mac(b"01-02-03-04-05-06\n"), Ok(()));
    assert_eq!(page_of(|p| t.show_extended(p)), b"1\n");
    assert_eq!(page_of(|p| t.show_release(p)), b"1\n");
    assert_eq!(page_of(|p| t.show_dev_name(p)), b"eth7\n");
    assert_eq!(page_of(|p| t.show_local_port(p)), b"1\n");
    assert_eq!(page_of(|p| t.show_remote_port(p)), b"65535\n");
    assert_eq!(page_of(|p| t.show_remote_mac(p)), b"01:02:03:04:05:06\n");
}

#[test]
fn shown_attributes_can_be_stored_back() {
    let mut t = NetconsoleTarget::new_with_config(None);
    t.store_dev_name(b"123456789012345").unwrap();
    let before = t.config;
    let line = page_of(|p| t.show_extended(p));
    t.store_extended(&line).unwrap();
    let line = page_of(|p| t.show_release(p));
    t.store_release(&line).unwrap();
    let line = page_of(|p| t.show_dev_name(p));
    t.store_dev_name(&line).unwrap();
    let line = page_of(|p| t.show_local_port(p));
    t.store_local_port(&line).unwrap();
    let line = page_of(|p| t.show_remote_port(p));
    t.store_remote_port(&line).unwrap();
    let line = page_of(|p| t.show_remote_mac(p));
    t.store_remote_mac(&line).unwrap();
    assert_eq!(t.config, before);
}

#[test]
fn device_names_are_cut_before_they_are_trimmed() {
    let mut t = NetconsoleTarget::new_with_config(None);
    t.store_dev_name(b"1234567890123456\n").unwrap();
    assert_eq!(&t.config.dev_name, b"123456789012345\0");
    t.store_dev_name(b"12345678901234\n\n\n").unwrap();
    assert_eq!(&t.config.dev_name, b"12345678901234\0\0");
    t.store_dev_name(b"\n").unwrap();
    assert_eq!(t.config.dev_name, [0u8; 16]);
    assert_eq!(page_of(|p| t.show_dev_name(p)), b"\n");
}

#[test]
fn refused_values_change_nothing() {
    let mut t = NetconsoleTarget::new_with_config(None);
    let before = t.config;
    assert_eq!(t.store_extended(b"maybe"), Err(Error(EINVAL)));
    assert_eq!(t.store_release(b""), Err(Error(EINVAL)));
    assert_eq!(t.store_local_port(b"65536"), Err(Error(EINVAL)));
    assert_eq!(t.store_remote_port(b"x"), Err(Error(EINVAL)));
    assert_eq!(t.store_remote_mac(b"x"), Err(Error(EINVAL)));
    assert_eq!(t.set_local_ip(Err(Error(EINVAL))), Err(Error(EINVAL)));
    assert_eq!(t.store_remote_ip(b"x", |_: &[u8]| Err(Error(EINVAL))), Err(Error(EINVAL)));
    assert_eq!(t.config, before);
}

#[test]
fn enabled_targets_are_busy() {
    let mut t = enabled();
    let before = t.config;
    let ip = IpAddr::V4(Ipv4Addr([1, 2, 3, 4]));
    assert_eq!(t.store_extended(b"1"), Err(Error(EBUSY)));
    assert_eq!(t.store_extended(b"maybe"), Err(Error(EBUSY)));
    assert_eq!(t.store_release(b"1"), Err(Error(EBUSY)));
    assert_eq!(t.store_dev_name(b"eth1"), Err(Error(EBUSY)));
    assert_eq!(t.store_local_port(b"1"), Err(Error(EBUSY)));
    assert_eq!(t.store_remote_port(b"1"), Err(Error(EBUSY)));
    assert_eq!(t.store_remote_mac(b"01:02:03:04:05:06"), Err(Error(EBUSY)));
    assert_eq!(t.set_local_ip(Ok(ip)), Err(Error(EBUSY)));
    assert_eq!(t.set_remote_ip(Ok(ip)), Err(Error(EBUSY)));
    assert_eq!(t.store_local_ip(b"1.2.3.4", |_: &[u8]| panic!("busy")), Err(Error(EBUSY)));
    assert_eq!(t.store_remote_ip(b"1.2.3.4", |_: &[u8]| panic!("busy")), Err(Error(EBUSY)));
    assert_eq!(t.config, before);
    assert_eq!(t.store_sysdata(SysdataFeature::Release, b"1"), Ok(()));
}

#[test]
fn ip_attributes() {
    let mut t = NetconsoleTarget::new_with_config(None);
    let ip = IpAddr::V4(Ipv4Addr([10, 0, 0, 1]));
    let parse = |text: &[u8]| {
        assert_eq!(text, b"10.0.0.1\n");
        Ok(IpAddr::V4(Ipv4Addr([10, 0, 0, 1])))
    };
    let format = |ip: IpAddr| match ip {
        IpAddr::V4(a) => format!("{}.{}.{}.{}", a.0[0], a.0[1], a.0[2], a.0[3]).into_bytes(),
        IpAddr::V6(_) => b"v6".to_vec(),
    };
    assert_eq!(t.store_local_ip(b"10.0.0.1\n", parse), Ok(()));
    assert_eq!(t.config.local_ip, ip);
    assert_eq!(t.config.remote_ip, IpAddr::default());
    assert_eq!(page_of(|p| t.show_local_ip(format, p)), b"10.0.0.1\n");
    assert_eq!(page_of(|p| t.show_remote_ip(format, p)), b"0.0.0.0\n");
    assert_eq!(t.store_remote_ip(b"10.0.0.1\n", parse), Ok(()));
    assert_eq!(page_of(|p| t.show_remote_ip(format, p)), b"10.0.0.1\n");
}

#[test]
fn enabling_uses_the_configuration() {
    let mut cfg = ParsedConfig::new();
    cfg.local_port = 7;
    cfg.remote_port = 8;
    cfg.local_ip = IpAddr::V4(Ipv4Addr([10, 0, 0, 1]));
    cfg.remote_ip = IpAddr::V6(Ipv6Addr([1; 16]));
    cfg.remote_mac = MacAddr::new([9; 6]);
    let mut t = NetconsoleTarget::new_with_config(Some(cfg));
    let rec = t.netpoll_builder().unwrap().record();
    assert_eq!(rec.name.to_bytes(), b"netconsole");
    assert_eq!(&rec.dev_name, b"eth0\0\0\0\0\0\0\0\0\0\0\0\0");
    assert_eq!((rec.local_port, rec.remote_port), (7, 8));
    assert!(rec.ipv6);
    assert_eq!(&rec.local_ip[..5], &[10, 0, 0, 1, 0]);
    assert_eq!(rec.remote_ip, [1; 16]);
    assert_eq!(rec.remote_mac, [9; 6]);
    assert_eq!(t.enable(|rec: NetpollRecord| (rec, -19)).err(), Some(Error(ENODEV)));
    assert!(!t.enabled);
    assert!(t.enable(|rec: NetpollRecord| (rec, 0)).unwrap().is_none());
    assert!(t.enabled);
    assert!(t.enable(|rec: NetpollRecord| (rec, 0)).unwrap().is_some());
    assert!(t.release().is_some());
    assert!(!t.enabled && t.netpoll.is_none());
    assert!(t.release().is_none());
}

#[test]
fn a_device_name_without_nul_is_refused() {
    let mut cfg = ParsedConfig::new();
    cfg.dev_name = [b'x'; 16];
    let mut t = NetconsoleTarget::new_with_config(Some(cfg));
    assert_eq!(t.netpoll_builder().err(), Some(Error(EINVAL)));
    assert_eq!(t.enable(|_: NetpollRecord| panic!("no device")).err(), Some(Error(EINVAL)));
}

#[test]
fn disabled_targets_send_nothing() {
    let mut t = NetconsoleTarget::new_with_config(None);
    t.store_sysdata(SysdataFeature::Msgid, b"1").unwrap();
    assert!(t.send_msg(b"hello", &info()).is_empty());
    assert_eq!(t.msg_counter, 0);
}

#[test]
fn messages_become_packets() {
    let mut t = enabled();
    assert_eq!(t.send_msg(b"hello", &info()), vec![b"hello".to_vec()]);
    t.userdata.add_entry(b"k").unwrap();
    t.userdata.set_value(b"k", b"v", &mut t.userdata_cache).unwrap();
    assert_eq!(t.send_msg(b"hello", &info()), vec![b"hello".to_vec(), b" k=v\n".to_vec()]);
    for feature in
        [SysdataFeature::CpuNr, SysdataFeature::Taskname, SysdataFeature::Release, SysdataFeature::Msgid]
    {
        assert_eq!(t.store_sysdata(feature, b"1\n"), Ok(()));
    }
    assert_eq!(
        t.send_msg(b"hello", &info()),
        vec![
            b"hello".to_vec(),
            b" k=v\n".to_vec(),
            b" cpu=3\n taskname=kworkr\n release=6.1.0\n msgid=1\n".to_vec(),
        ]
    );
    t.userdata.set_value(b"k", b"", &mut t.userdata_cache).unwrap();
    t.store_sysdata(SysdataFeature::Taskname, b"0").unwrap();
    assert_eq!(
        t.send_msg(b"", &info()),
        vec![b"".to_vec(), b" cpu=3\n release=6.1.0\n msgid=2\n".to_vec()]
    );
}

#[test]
fn message_numbers_wrap() {
    let mut t = enabled();
    t.sysdata_fields = SYSDATA_MSGID;
    t.msg_counter = u32::MAX - 1;
    assert_eq!(t.send_msg(b"a", &info())[1], b" msgid=4294967295\n");
    assert_eq!(t.send_msg(b"b", &info())[1], b" msgid=0\n");
    assert_eq!(t.send_msg(b"c", &info())[1], b" msgid=1\n");
    t.sysdata_fields = SYSDATA_CPU_NR;
    t.send_msg(b"d", &info());
    assert_eq!(t.msg_counter, 1);
}

#[test]
fn failures_are_counted() {
    let mut t = enabled();
    t.note_sent(&[]);
    t.note_sent(&[Ok(5)]);
    t.note_sent(&[Ok(5), Err(Error(ENODEV)), Err(Error(ENODEV))]);
    assert_eq!(t.xmit_errors, 0);
    t.note_sent(&[Err(Error(ENODEV)), Err(Error(ENODEV))]);
    t.note_sent(&[Err(Error(ENODEV)), Ok(5)]);
    assert_eq!(page_of(|p| t.show_transmit_errors(p)), b"2\n");
}

#[test]
fn packets_are_sent_whatever_became_of_the_others() {
    let packets = vec![b"message".to_vec(), b"user".to_vec(), b"".to_vec()];
    let mut t = enabled();
    let log: Vec<Vec<u8>> = Vec::new();
    let (log, results) =
        t.transmit(&packets, log, |mut log: Vec<Vec<u8>>, rec: &NetpollRecord, msg: &[u8], len: i32| {
            assert_eq!(rec.remote_port, 6666);
            assert_eq!(msg.len(), len as usize);
            log.push(msg.to_vec());
            (log, if len == 7 { -19 } else { len })
        });
    assert_eq!(log, packets);
    assert_eq!(results, vec![Err(Error(ENODEV)), Ok(4), Ok(0)]);
    t.note_sent(&results);
    assert_eq!(t.xmit_errors, 1);
    t.release();
    let (n, results) =
        t.transmit(&packets, 7, |_: i32, _: &NetpollRecord, _: &[u8], _: i32| panic!("disabled"));
    assert_eq!(n, 7);
    assert!(results.is_empty());
}

#[test]
fn sysdata_features_are_independent() {
    let all = [
        (SysdataFeature::CpuNr, SYSDATA_CPU_NR),
        (SysdataFeature::Taskname, SYSDATA_TASKNAME),
        (SysdataFeature::Release, SYSDATA_RELEASE),
        (SysdataFeature::Msgid, SYSDATA_MSGID),
    ];
    assert_eq!(all.map(|(f, _)| f.bit()), [1, 2, 4, 8]);
    for fields in 0..16u32 {
        for (feature, bit) in all {
            let mut f = fields;
            assert_eq!(store_flag(&mut f, feature, b"1\n"), Ok(()));
            assert_eq!(f, fields | bit);
            assert_eq!(page_of(|p| show_flag(f, feature, p)), b"1\n");
            assert_eq!(store_flag(&mut f, feature, b"no"), Ok(()));
            assert_eq!(f, fields & !bit);
            assert_eq!(page_of(|p| show_flag(f, feature, p)), b"0\n");
            assert_eq!(store_flag(&mut f, feature, b"?"), Err(Error(EINVAL)));
            assert_eq!(f, fields & !bit);
        }
    }
    let t = NetconsoleTarget::new_with_config(None);
    assert_eq!(page_of(|p| t.show_sysdata(SysdataFeature::Msgid, p)), b"0\n");
}

#[test]
fn sysdata_lines_need_room() {
    let mut buf = [b'.'; 8];
    assert_eq!(format_sysdata_u32(&mut buf, b"cpu", 12), 8);
    assert_eq!(&buf, b" cpu=12\n");
    assert_eq!(format_sysdata_u32(&mut buf, b"cpu", 123), 0);
    assert_eq!(format_sysdata_bytes(&mut buf, b"k", b"v"), 5);
    assert_eq!(&buf, b" k=v\n12\n");
    // The task name finds no room; what comes behind it does.
    let mut buf = [b'.'; 18];
    let fields = SYSDATA_CPU_NR | SYSDATA_TASKNAME | SYSDATA_MSGID;
    assert_eq!(write_sysdata(fields, &info(), 7, &mut buf), 16);
    assert_eq!(&buf, b" cpu=3\n msgid=7\n..");
}

#[test]
fn names_without_nul_are_used_whole() {
    let info = SystemInfo { cpu: u32::MAX, comm: [b'c'; 16], release: [b'r'; 65] };
    let mut buf = [0u8; 1024];
    let n = write_sysdata(15, &info, u32::MAX, &mut buf);
    let expected = format!(
        " cpu=4294967295\n taskname={}\n release={}\n msgid=4294967295\n",
        "c".repeat(16),
        "r".repeat(65)
    );
    assert_eq!(&buf[..n], expected.as_bytes());
}
