use netconsole::cstr::CStr;
use netconsole::driver::cmdline::ParsedConfig;
use netconsole::driver::module::{EnableStep, NetconsoleModule};
use netconsole::driver::sysdata::{SystemInfo, SYSDATA_MSGID};
use netconsole::driver::targets::{CmdlineConfigHolder, EnabledTargets};
use netconsole::error::{Error, EEXIST, EINVAL, ENODEV, ENOMEM};
use netconsole::minimal::RustMinimal;
use netconsole::net::netpoll::{Netpoll, NetpollBuilder};

fn info() -> SystemInfo {
    SystemInfo { cpu: 0, comm: [0; 16], release: [0; 65] }
}

fn netpoll() -> Result<Netpoll, Error> {
    Netpoll::from_setup(NetpollBuilder::new().record(), 0)
}

fn with_targets(n: usize) -> NetconsoleModule {
    let mut m = NetconsoleModule::new();
    for i in 0..n {
        assert_eq!(m.create_target(None), Ok(i));
    }
    m
}

fn enable(m: &mut NetconsoleModule, id: usize) {
    match m.store_enabled(id, b"1\n") {
        Ok(EnableStep::SetUp(rec)) => {
            let outcome = m.finish_enable(id, Netpoll::from_setup(rec, 0));
            assert_eq!(outcome.result, Ok(()));
            assert!(outcome.released.is_none());
        }
        other => panic!("{:?}", other),
    }
}

fn reached(m: &mut NetconsoleModule, msg: &[u8]) -> Vec<usize> {
    m.send_to_all(msg, &info())
        .into_iter()
        .map(|(id, packets)| {
            assert_eq!(packets[0], msg);
            id
        })
        .collect()
}

#[test]
fn enabled_list() {
    let mut list = EnabledTargets::new();
    for id in [4, 7, 4, 9] {
        assert_eq!(list.add(id), Ok(()));
    }
    assert_eq!(list.add_reserved(1, false), Err(Error(ENOMEM)));
    assert_eq!(list.list, vec![4, 7, 4, 9]);
    list.remove(4);
    assert_eq!(list.list, vec![7, 9]);
    list.remove(4);
    assert_eq!(list.list, vec![7, 9]);
    list.remove(9);
    list.remove(7);
    assert!(list.list.is_empty());
    assert_eq!(list.add_reserved(1, true), Ok(()));
    assert_eq!(list.list, vec![1]);
}

#[test]
fn waiting_configurations() {
    let mut holder = CmdlineConfigHolder::new();
    let mut first = ParsedConfig::new();
    first.local_port = 1;
    let mut second = ParsedConfig::new();
    second.local_port = 2;
    let name = CStr::from_ascii("cmdline0");
    assert_eq!(holder.take(&name), None);
    assert_eq!(holder.add(name.duplicate(), first), Ok(()));
    assert_eq!(holder.add(name.duplicate(), second), Ok(()));
    assert_eq!(holder.add_reserved(name.duplicate(), second, false), Err(Error(ENOMEM)));
    assert_eq!(holder.take(&CStr::from_ascii("cmdline")), None);
    assert_eq!(holder.take(&name), Some(first));
    assert_eq!(holder.take(&name), Some(second));
    assert_eq!(holder.take(&name), None);
}

#[test]
fn messages_reach_the_enabled_targets_in_order() {
    let mut m = with_targets(3);
    assert!(reached(&mut m, b"lost").is_empty());
    enable(&mut m, 2);
    enable(&mut m, 0);
    assert_eq!(reached(&mut m, b"one"), vec![2, 0]);
    assert!(matches!(m.store_enabled(2, b"0"), Ok(EnableStep::Stopped(Some(_)))));
    assert_eq!(reached(&mut m, b"two"), vec![0]);
    enable(&mut m, 2);
    enable(&mut m, 1);
    assert_eq!(reached(&mut m, b"three"), vec![0, 2, 1]);
}

#[test]
fn each_target_counts_its_own_messages() {
    let mut m = with_targets(2);
    m.targets[0].sysdata_fields = SYSDATA_MSGID;
    m.targets[1].sysdata_fields = SYSDATA_MSGID;
    enable(&mut m, 0);
    reached(&mut m, b"one");
    enable(&mut m, 1);
    let sent = m.send_to_all(b"two", &info());
    assert_eq!(sent[0], (0, vec![b"two".to_vec(), b" msgid=2\n".to_vec()]));
    assert_eq!(sent[1], (1, vec![b"two".to_vec(), b" msgid=1\n".to_vec()]));
    m.note_sent(1, &[Err(Error(ENODEV)), Ok(9)]);
    m.note_sent(1, &[Ok(3), Err(Error(ENODEV))]);
    assert_eq!((m.targets[0].xmit_errors, m.targets[1].xmit_errors), (0, 1));
}

#[test]
fn storing_the_state_it_has_does_nothing() {
    let mut m = with_targets(1);
    assert!(matches!(m.store_enabled(0, b"0\n"), Ok(EnableStep::Done)));
    enable(&mut m, 0);
    assert!(matches!(m.store_enabled(0, b"yes"), Ok(EnableStep::Done)));
    assert_eq!(m.enabled_targets.list, vec![0]);
    assert_eq!(m.store_enabled(0, b"maybe").err(), Some(Error(EINVAL)));
}

#[test]
fn failed_setup_leaves_the_target_disabled() {
    let mut m = with_targets(1);
    assert!(matches!(m.store_enabled(0, b"1"), Ok(EnableStep::SetUp(_))));
    let outcome = m.finish_enable(0, Err(Error(ENODEV)));
    assert_eq!(outcome.result, Err(Error(ENODEV)));
    assert!(!m.targets[0].enabled);
    assert!(m.enabled_targets.list.is_empty());
}

#[test]
fn someone_else_was_faster() {
    let mut m = with_targets(1);
    enable(&mut m, 0);
    let outcome = m.finish_enable(0, netpoll());
    assert_eq!(outcome.result, Ok(()));
    assert!(outcome.released.is_some());
    assert_eq!(m.enabled_targets.list, vec![0]);
}

#[test]
fn without_memory_for_the_list_enabling_is_undone() {
    let mut m = with_targets(1);
    let outcome = m.finish_enable_reserved(0, netpoll(), false);
    assert_eq!(outcome.result, Err(Error(ENOMEM)));
    assert!(outcome.released.is_some());
    assert!(!m.targets[0].enabled && m.targets[0].netpoll.is_none());
    assert!(m.enabled_targets.list.is_empty());
    let outcome = m.finish_enable_reserved(0, netpoll(), true);
    assert_eq!(outcome.result, Ok(()));
    assert_eq!(m.enabled_targets.list, vec![0]);
}

#[test]
fn a_bad_device_name_cannot_be_enabled() {
    let mut m = with_targets(1);
    m.targets[0].config.dev_name = [b'x'; 16];
    assert_eq!(m.store_enabled(0, b"1").err(), Some(Error(EINVAL)));
    assert_eq!(m.enable_request(0).err(), Some(Error(EINVAL)));
}

#[test]
fn command_line_target_comes_up() {
    let mut cfg = ParsedConfig::new();
    cfg.remote_port = 9;
    let (mut m, step) = NetconsoleModule::init(Some(cfg)).unwrap();
    let step = step.unwrap();
    let id = step.id;
    assert_eq!(step.group.to_bytes(), b"cmdline0");
    let rec = step.request.unwrap();
    assert_eq!(rec.remote_port, 9);
    let outcome = m.finish_init(id, Netpoll::from_setup(rec, 0));
    assert_eq!(outcome.result, Ok(()));
    assert_eq!(m.cmdline_target, Some(id));
    assert_eq!(reached(&mut m, b"x"), vec![id]);
    let step = m.exit().unwrap();
    assert_eq!(step.id, id);
    assert!(step.released.is_some());
    assert!(reached(&mut m, b"x").is_empty());
    assert!(!m.targets[id].enabled);
}

#[test]
fn starting_the_driver() {
    let (m, step) = NetconsoleModule::init(None).unwrap();
    assert!(step.is_none() && m.targets.is_empty() && m.cmdline_target.is_none());
    let cfg = ParsedConfig::new();
    assert_eq!(NetconsoleModule::init_reserved(Some(cfg), false).err(), Some(Error(ENOMEM)));
    assert!(NetconsoleModule::init_reserved(None, false).is_ok());
    let bad = ParsedConfig { dev_name: [b'x'; 16], ..cfg };
    let (m, step) = NetconsoleModule::init_reserved(Some(bad), true).unwrap();
    assert_eq!(m.targets[0].config.dev_name, [b'x'; 16]);
    assert_eq!(step.unwrap().request.err(), Some(Error(EINVAL)));
}

#[test]
fn a_group_that_cannot_be_registered_fails_the_start() {
    let (m, step) = NetconsoleModule::init(Some(ParsedConfig::new())).unwrap();
    assert_eq!(m.group_registered(step.unwrap(), Err(Error(EEXIST))).err(), Some(Error(EEXIST)));
    let (m, step) = NetconsoleModule::init(Some(ParsedConfig::new())).unwrap();
    let (m, step) = m.group_registered(step.unwrap(), Ok(())).unwrap();
    assert_eq!((m.targets.len(), step.id), (1, 0));
    assert_eq!(step.group.to_bytes(), b"cmdline0");
}

#[test]
fn command_line_target_without_device_stays() {
    let mut m = NetconsoleModule::new();
    let id = m.create_target(Some(ParsedConfig::new())).unwrap();
    let outcome = m.finish_init(id, Err(Error(ENODEV)));
    assert_eq!(outcome.result, Err(Error(ENODEV)));
    assert_eq!(m.cmdline_target, Some(id));
    assert!(!m.targets[id].enabled);
    enable(&mut m, id);
    assert_eq!(reached(&mut m, b"x"), vec![id]);
}

#[test]
fn command_line_target_without_memory_is_disabled() {
    let mut m = NetconsoleModule::new();
    let id = m.create_target(Some(ParsedConfig::new())).unwrap();
    let outcome = m.finish_init_reserved(id, netpoll(), false);
    assert_eq!(outcome.result, Err(Error(ENOMEM)));
    assert!(outcome.released.is_some());
    assert_eq!(m.cmdline_target, Some(id));
    assert!(!m.targets[id].enabled);
    let step = m.exit().unwrap();
    assert!(step.released.is_none());
}

#[test]
fn nothing_to_take_down_without_a_command_line() {
    let mut m = with_targets(1);
    enable(&mut m, 0);
    assert!(m.exit().is_none());
    assert_eq!(reached(&mut m, b"x"), vec![0]);
}

#[test]
fn groups_become_targets() {
    let mut m = NetconsoleModule::new();
    let mut cfg = ParsedConfig::new();
    cfg.local_port = 5;
    let name = CStr::from_ascii("cmdline0");
    m.cmdline_configs.add(name.duplicate(), cfg).unwrap();
    assert_eq!(m.make_group(&CStr::from_ascii("target1")), Ok((0, false)));
    assert_eq!(m.targets[0].config.local_port, 6665);
    assert_eq!(m.make_group(&name), Ok((1, true)));
    assert_eq!(m.targets[1].config.local_port, 5);
    let outcome = m.finish_group(1, netpoll());
    assert_eq!(outcome.result, Ok(()));
    assert!(m.targets[1].enabled);
    assert!(reached(&mut m, b"x").is_empty());
    assert_eq!(m.make_group(&name), Ok((2, false)));
    let outcome = m.finish_group(2, Err(Error(ENODEV)));
    assert_eq!(outcome.result, Err(Error(ENODEV)));
    assert!(!m.targets[2].enabled);
}

#[test]
fn no_memory_for_a_target() {
    let mut m = NetconsoleModule::new();
    let name = CStr::from_ascii("cmdline0");
    m.cmdline_configs.add(name.duplicate(), ParsedConfig::new()).unwrap();
    assert_eq!(m.create_target_reserved(None, false), Err(Error(ENOMEM)));
    assert_eq!(m.make_group_reserved(&name, false), Err(Error(ENOMEM)));
    assert!(m.targets.is_empty());
    assert_eq!(m.make_group(&name), Ok((0, false)));
}

#[test]
fn minimal_module() {
    assert_eq!(RustMinimal::init().unwrap().numbers, vec![72, 108, 200]);
    assert_eq!(RustMinimal::init_reserved(Vec::new(), true, true, true).unwrap().numbers, vec![72, 108, 200]);
    for (a, b, c) in [(false, true, true), (true, false, true), (true, true, false)] {
        assert_eq!(RustMinimal::init_reserved(Vec::new(), a, b, c).err(), Some(Error(ENOMEM)));
    }
}
