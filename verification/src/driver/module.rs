//! The state of the driver: its targets, and which of them messages are sent to.
//!
//! Registering groups, setting up devices and sending packets is done by the caller. What is to be
//! done, and what becomes of the outcome, is decided here.
use vstd::prelude::*;
use crate::bytes::{ascii, law_lines_view_is_linewise, lines_view, trimmed};
use crate::console::flags::{CON_ENABLED, CON_PRINTBUFFER};
use crate::console::{console_name, Console, ConsoleOps};
use crate::cstr::CStr;
use crate::driver::attribute::{bool_of_text, parse_bool};
use crate::driver::cmdline::{explained_answer, parse_explained, CmdlineRefusal, ParsedConfig};
use crate::driver::config::default_config;
use crate::driver::sysdata::{SystemFacts, SystemInfo};
use crate::driver::target::{has_device, law_message_goes_first, message_failed, params_of, NetconsoleTarget};
use crate::driver::targets::{
    first_named,
    law_list_remove_undoes_add,
    law_remove_keeps_others,
    unnamed,
    without,
    CmdlineConfigHolder,
    EnabledTargets,
};
use crate::error::{Error, EINVAL, ENOMEM};
use crate::memory::{room_tried, try_room};
use crate::net::ip::IpAddr;
use crate::net::netpoll::{Netpoll, NetpollRecord};

verus! {

/// The driver. A target is known by its position.
#[derive(Debug)]
pub struct NetconsoleModule {
    /// All targets.
    pub targets: Vec<NetconsoleTarget>,
    /// The targets that messages are sent to.
    pub enabled_targets: EnabledTargets,
    /// Configurations that wait for a target of their name.
    pub cmdline_configs: CmdlineConfigHolder,
    /// The target that the command line asked for.
    pub cmdline_target: Option<usize>,
}

/// The state of the driver as mathematical values.
pub struct ModuleState {
    pub targets: Seq<NetconsoleTarget>,
    pub listed: Seq<usize>,
    pub configs: Seq<(Seq<u8>, ParsedConfig)>,
    pub cmdline_target: Option<usize>,
}

impl View for NetconsoleModule {
    type V = ModuleState;

    open spec fn view(&self) -> ModuleState {
        ModuleState {
            targets: self.targets@,
            listed: self.enabled_targets@,
            configs: self.cmdline_configs@,
            cmdline_target: self.cmdline_target,
        }
    }
}

/// A list holds the target in position `i`.
pub open spec fn among(list: Seq<usize>, i: int) -> bool {
    exists|k: int| 0 <= k < list.len() && #[trigger] list[k] == i
}

impl ModuleState {
    /// Every target is well formed. The listed targets exist and are enabled, and none is listed
    /// twice. The target of the command line exists.
    pub open spec fn wf(self) -> bool {
        &&& forall|i: int| 0 <= i < self.targets.len() ==> (#[trigger] self.targets[i]).wf()
        &&& forall|k: int|
            0 <= k < self.listed.len() ==> (#[trigger] self.listed[k]) < self.targets.len()
                && self.targets[self.listed[k] as int].enabled
        &&& self.listed.no_duplicates()
        &&& self.cmdline_target matches Some(id) ==> id < self.targets.len()
    }

    /// A target is enabled, and not listed.
    pub open spec fn installed(self, id: usize, np: Netpoll) -> ModuleState {
        ModuleState {
            targets: self.targets.update(
                id as int,
                NetconsoleTarget {
                    enabled: true,
                    netpoll: Some(np),
                    ..self.targets[id as int]
                },
            ),
            ..self
        }
    }

    /// A target is enabled and listed.
    pub open spec fn started(self, id: usize, np: Netpoll) -> ModuleState {
        ModuleState { listed: self.listed.push(id), ..self.installed(id, np) }
    }

    /// A target is disabled, and not listed any more.
    pub open spec fn stopped(self, id: usize) -> ModuleState {
        ModuleState {
            targets: self.targets.update(
                id as int,
                NetconsoleTarget { enabled: false, netpoll: None, ..self.targets[id as int] },
            ),
            listed: without(self.listed, id),
            ..self
        }
    }

    /// The targets after each listed one has made its packets.
    pub open spec fn after_packets(self) -> ModuleState {
        ModuleState {
            targets: Seq::new(
                self.targets.len(),
                |i: int|
                    if among(self.listed, i) {
                        self.targets[i].after_packets()
                    } else {
                        self.targets[i]
                    },
            ),
            ..self
        }
    }
}

/// A target that is started and then stopped is as it was; so is the list.
pub proof fn law_stop_undoes_start(m: ModuleState, id: usize, np: Netpoll)
    requires
        m.wf(),
        id < m.targets.len(),
        !m.targets[id as int].enabled,
    ensures
        m.started(id, np).stopped(id) == m,
{
    lemma_disabled_not_listed(m, id);
    law_list_remove_undoes_add(m.listed, id);
    assert(m.started(id, np).stopped(id).targets =~= m.targets);
}

/// A stopped target is not listed; every other target, and whether it is listed, stays as it was.
pub proof fn law_stopped_not_listed(m: ModuleState, id: usize, other: usize)
    requires
        id < m.targets.len(),
        other < m.targets.len(),
    ensures
        !m.stopped(id).listed.contains(id),
        !m.stopped(id).targets[id as int].enabled,
        other != id ==> m.stopped(id).listed.contains(other) == m.listed.contains(other)
            && m.stopped(id).targets[other as int] == m.targets[other as int],
{
    law_remove_keeps_others(m.listed, id, other);
}

/// A disabled target is not listed.
pub proof fn lemma_disabled_not_listed(m: ModuleState, id: usize)
    requires
        m.wf(),
        id < m.targets.len(),
        !m.targets[id as int].enabled,
    ensures
        !m.listed.contains(id),
{
    if m.listed.contains(id) {
        let k = choose|k: int| 0 <= k < m.listed.len() && m.listed[k] == id;
        assert(m.targets[m.listed[k] as int].enabled);
    }
}

/// A disabled target is sent nothing, and a message does not change it.
pub proof fn law_disabled_gets_nothing(m: ModuleState, id: usize)
    requires
        m.wf(),
        id < m.targets.len(),
        !m.targets[id as int].enabled,
    ensures
        forall|delivery: Delivery, k: int, msg: Seq<u8>, facts: SystemFacts|
            0 <= k < m.listed.len() && #[trigger] delivers(delivery, m, k, msg, facts)
                ==> delivery.0 != id,
        m.after_packets().targets[id as int] == m.targets[id as int],
{
    lemma_disabled_not_listed(m, id);
    assert forall|k: int| 0 <= k < m.listed.len() implies #[trigger] m.listed[k] != id by {
        assert(m.listed.contains(m.listed[k]));
    }
}

/// Enabling a target keeps the state well formed.
pub proof fn law_installed_wf(m: ModuleState, id: usize, np: Netpoll)
    requires
        m.wf(),
        id < m.targets.len(),
        np.enabled(),
    ensures
        m.installed(id, np).wf(),
        !m.targets[id as int].enabled ==> m.started(id, np).wf(),
{
    if !m.targets[id as int].enabled {
        lemma_disabled_not_listed(m, id);
        let listed = m.started(id, np).listed;
        assert forall|i: int, j: int| 0 <= i < j < listed.len() implies listed[i] != listed[j] by {
            if j == m.listed.len() {
                assert(m.listed.contains(m.listed[i]));
            }
        }
    }
}

/// Disabling a target keeps the state well formed.
pub proof fn law_stopped_wf(m: ModuleState, id: usize)
    requires
        m.wf(),
        id < m.targets.len(),
    ensures
        m.stopped(id).wf(),
{
    let after = m.stopped(id);
    law_remove_keeps_others(m.listed, id, id);
    assert forall|k: int| 0 <= k < after.listed.len() implies (#[trigger] after.listed[k])
        < after.targets.len() && after.targets[after.listed[k] as int].enabled by {
        let x = after.listed[k];
        assert(after.listed.contains(x));
        law_remove_keeps_others(m.listed, id, x);
        let j = choose|j: int| 0 <= j < m.listed.len() && m.listed[j] == x;
        assert(m.targets[m.listed[j] as int].enabled);
    }
}

/// What is left to do to store the state of a target.
#[derive(Debug)]
pub enum EnableStep {
    /// The target is in that state already.
    Done,
    /// A netpoll instance has to be set up with these parameters.
    SetUp(NetpollRecord),
    /// The target has been disabled; the instance that it used has to be cleaned up.
    Stopped(Option<Netpoll>),
}

/// What became of an attempt to enable a target.
#[derive(Debug)]
pub struct EnableOutcome {
    /// Whether it has succeeded.
    pub result: Result<(), Error>,
    /// An instance that is not used, which has to be cleaned up.
    pub released: Option<Netpoll>,
}

/// What is left to do to take the target of the command line up: its group has to be registered,
/// then its device set up.
#[derive(Debug)]
pub struct InitStep {
    /// The target.
    pub id: usize,
    /// The name of its group.
    pub group: CStr,
    /// The parameters to set it up with, or why it cannot be.
    pub request: Result<NetpollRecord, Error>,
}

/// What is left to do when the driver is removed.
#[derive(Debug)]
pub struct ExitStep {
    /// The target whose group has to be unregistered.
    pub id: usize,
    /// The instance that it used, which has to be cleaned up.
    pub released: Option<Netpoll>,
}

/// A message to a target: the target, and the packets in their order.
pub type Delivery = (usize, Vec<Vec<u8>>);

/// What of a parameter is used, and what is to be complained of. Without a parameter, or with an
/// empty one, there is nothing to use; one that does not parse is complained of and not used.
pub open spec fn param_answer<F: Fn(&[u8]) -> Option<IpAddr>>(
    parse_ip: F,
    param: Option<&[u8]>,
    answer: (Option<ParsedConfig>, Option<CmdlineRefusal>),
) -> bool {
    if param matches Some(text) && text@.len() > 0 {
        exists|parsed: Result<ParsedConfig, CmdlineRefusal>| #[trigger]
            explained_answer(parse_ip, param.unwrap()@, parsed) && answer == (match parsed {
                Ok(cfg) => (Some(cfg), None::<CmdlineRefusal>),
                Err(e) => (None::<ParsedConfig>, Some(e)),
            })
    } else {
        answer == (None::<ParsedConfig>, None::<CmdlineRefusal>)
    }
}

/// Reads the module parameter: the configuration that it gives, or what is wrong with it.
pub fn cmdline_config<F: Fn(&[u8]) -> Option<IpAddr>>(param: Option<&[u8]>, parse_ip: F) -> (r: (
    Option<ParsedConfig>,
    Option<CmdlineRefusal>,
))
    requires
        forall|s: &[u8]| call_requires(parse_ip, (s,)),
    ensures
        param_answer(parse_ip, param, r),
{
    match param {
        Some(text) => {
            if text.len() == 0 {
                return (None, None);
            }
            match parse_explained(text, parse_ip) {
                Ok(cfg) => (Some(cfg), None),
                Err(e) => (None, Some(e)),
            }
        },
        None => (None, None),
    }
}

/// The console that hands messages to the driver.
pub fn register_console<T: ConsoleOps>(ops: T) -> (con: Console<T>)
    ensures
        con.record().name@ == console_name(ascii("netcon"@)),
        con.record().flags == 5,
        con.record().write,
        con.record().setup == T::HAS_SETUP,
        con.record().data,
        con.ops() == ops,
        con.registered(),
{
    proof {
        reveal_strlit("netcon");
    }
    let flags: u16 = CON_ENABLED | CON_PRINTBUFFER;
    assert(4u16 | 1u16 == 5) by (bit_vector);
    Console::register(&CStr::from_ascii("netcon"), flags, ops)
}

impl NetconsoleModule {
    /// A driver without targets.
    pub fn new() -> (m: NetconsoleModule)
        ensures
            m@.wf(),
            m@.targets == Seq::<NetconsoleTarget>::empty(),
            m@.listed == Seq::<usize>::empty(),
            m@.configs == Seq::<(Seq<u8>, ParsedConfig)>::empty(),
            m@.cmdline_target is None,
    {
        NetconsoleModule {
            targets: Vec::new(),
            enabled_targets: EnabledTargets::new(),
            cmdline_configs: CmdlineConfigHolder::new(),
            cmdline_target: None,
        }
    }

    /// Creates a target, given whether there is memory for it.
    pub fn create_target_reserved(&mut self, cfg: Option<ParsedConfig>, reserved: bool) -> (r: Result<
        usize,
        Error,
    >)
        requires
            old(self)@.wf(),
        ensures
            final(self)@.wf(),
            !reserved ==> r == Err::<usize, Error>(Error(ENOMEM)) && final(self)@ == old(self)@,
            reserved ==> {
                &&& r == Ok::<usize, Error>(old(self)@.targets.len() as usize)
                &&& old(self)@.targets.len() <= usize::MAX
                &&& final(self)@.targets.len() == old(self)@.targets.len() + 1
                &&& final(self)@.targets.last().fresh(
                    match cfg {
                        Some(c) => c@,
                        None => default_config(),
                    },
                )
                &&& final(self)@ == (ModuleState {
                    targets: old(self)@.targets.push(final(self)@.targets.last()),
                    ..old(self)@
                })
            },
    {
        if !reserved {
            return Err(Error(ENOMEM));
        }
        let id: usize = self.targets.len();
        let target: NetconsoleTarget = NetconsoleTarget::new_with_config(cfg);
        self.targets.push(target);
        assert(self@.targets =~= old(self)@.targets.push(self@.targets.last()));
        Ok(id)
    }

    /// Makes room for one more target. Whether there is memory for it is not up to this code.
    fn reserve_target(&mut self) -> (r: bool)
        ensures
            final(self)@ == old(self)@,
            room_tried(old(self).targets, 1, r),
    {
        try_room(&mut self.targets, 1)
    }

    /// Creates a target for a configuration from the command line, or with the defaults. It is
    /// refused where there is no memory for it.
    pub fn create_target(&mut self, cfg: Option<ParsedConfig>) -> (r: Result<usize, Error>)
        requires
            old(self)@.wf(),
        ensures
            final(self)@.wf(),
            room_tried(old(self).targets, 1, r is Ok),
            r is Err ==> r == Err::<usize, Error>(Error(ENOMEM)) && final(self)@ == old(self)@,
            r matches Ok(id) ==> {
                &&& id == old(self)@.targets.len()
                &&& final(self)@.targets.len() == old(self)@.targets.len() + 1
                &&& final(self)@.targets.last().fresh(
                    match cfg {
                        Some(c) => c@,
                        None => default_config(),
                    },
                )
                &&& final(self)@ == (ModuleState {
                    targets: old(self)@.targets.push(final(self)@.targets.last()),
                    ..old(self)@
                })
            },
    {
        let reserved: bool = self.reserve_target();
        self.create_target_reserved(cfg, reserved)
    }

    /// Makes a target of a name, given whether there is memory for it. Returns the target, and
    /// whether it has to be enabled: a configuration that waits for the name is used, and used up.
    pub fn make_group_reserved(&mut self, name: &CStr, reserved: bool) -> (r: Result<
        (usize, bool),
        Error,
    >)
        requires
            old(self)@.wf(),
        ensures
            final(self)@.wf(),
            reserved <==> r is Ok,
            r is Err ==> r == Err::<(usize, bool), Error>(Error(ENOMEM)),
            r matches Ok((id, enable)) ==> id == old(self)@.targets.len() && enable == !unnamed(
                old(self)@.configs,
                name@,
            ),
            unnamed(old(self)@.configs, name@) ==> made_from(
                old(self)@,
                final(self)@,
                r is Ok,
                None,
                old(self)@.configs,
            ),
            !unnamed(old(self)@.configs, name@) ==> exists|i: int| #[trigger]
                first_named(old(self)@.configs, name@, i) && made_from(
                    old(self)@,
                    final(self)@,
                    r is Ok,
                    Some(old(self)@.configs[i].1),
                    old(self)@.configs.remove(i),
                ),
    {
        let cfg: Option<ParsedConfig> = self.cmdline_configs.take(name);
        let enable: bool = cfg.is_some();
        let ghost taken = self@;
        proof {
            if cfg is Some {
                let i = choose|i: int| #[trigger]
                    first_named(old(self)@.configs, name@, i) && cfg.unwrap()
                        == old(self)@.configs[i].1 && taken.configs == old(self)@.configs.remove(i);
                assert(old(self)@.configs[i].0 == name@);
                assert(!unnamed(old(self)@.configs, name@));
            }
        }
        match self.create_target_reserved(cfg, reserved) {
            Ok(id) => Ok((id, enable)),
            Err(e) => Err(e),
        }
    }

    /// Makes a target of a name. Returns the target, and whether it has to be enabled: a
    /// configuration that waits for the name is used, and used up. A target is refused where there
    /// is no memory for it.
    pub fn make_group(&mut self, name: &CStr) -> (r: Result<(usize, bool), Error>)
        requires
            old(self)@.wf(),
        ensures
            final(self)@.wf(),
            room_tried(old(self).targets, 1, r is Ok),
            r is Err ==> r == Err::<(usize, bool), Error>(Error(ENOMEM)),
            r matches Ok((id, enable)) ==> id == old(self)@.targets.len() && enable == !unnamed(
                old(self)@.configs,
                name@,
            ),
            unnamed(old(self)@.configs, name@) ==> made_from(
                old(self)@,
                final(self)@,
                r is Ok,
                None,
                old(self)@.configs,
            ),
            !unnamed(old(self)@.configs, name@) ==> exists|i: int| #[trigger]
                first_named(old(self)@.configs, name@, i) && made_from(
                    old(self)@,
                    final(self)@,
                    r is Ok,
                    Some(old(self)@.configs[i].1),
                    old(self)@.configs.remove(i),
                ),
    {
        let reserved: bool = self.reserve_target();
        self.make_group_reserved(name, reserved)
    }

    /// Gives a driver without targets one for the configuration of the command line, where there is
    /// a configuration, given whether there is memory for it.
    fn with_cmdline_target(self, cfg: Option<ParsedConfig>, reserved: bool) -> (r: Result<
        (NetconsoleModule, Option<InitStep>),
        Error,
    >)
        requires
            self@.wf(),
            self@.targets.len() == 0,
            self@.listed.len() == 0,
            self@.configs.len() == 0,
            self@.cmdline_target is None,
        ensures
            initialised(cfg, reserved, r),
    {
        let mut m: NetconsoleModule = self;
        if cfg.is_none() {
            return Ok((m, None));
        }
        match m.create_target_reserved(cfg, reserved) {
            Ok(id) => {
                proof {
                    reveal_strlit("cmdline0");
                }
                let request: Result<NetpollRecord, Error> = m.enable_request(id);
                let step: InitStep = InitStep { id, group: CStr::from_ascii("cmdline0"), request };
                Ok((m, Some(step)))
            },
            Err(e) => Err(e),
        }
    }

    /// A driver with a target for the configuration of the command line, where there is one, given
    /// whether there is memory for it.
    pub fn init_reserved(cfg: Option<ParsedConfig>, reserved: bool) -> (r: Result<
        (NetconsoleModule, Option<InitStep>),
        Error,
    >)
        ensures
            initialised(cfg, reserved, r),
    {
        NetconsoleModule::new().with_cmdline_target(cfg, reserved)
    }

    /// A driver with a target for the configuration of the command line, where there is one. It
    /// fails where there is no memory for the target.
    pub fn init(cfg: Option<ParsedConfig>) -> (r: Result<
        (NetconsoleModule, Option<InitStep>),
        Error,
    >)
        ensures
            initialised(cfg, true, r) || initialised(cfg, false, r),
            cfg is Some ==> exists|v: Vec<NetconsoleTarget>| #[trigger]
                room_tried(v, 1, r is Ok) && v@.len() == 0,
    {
        let mut m: NetconsoleModule = NetconsoleModule::new();
        let reserved: bool = m.reserve_target();
        m.with_cmdline_target(cfg, reserved)
    }

    /// Goes on with starting the driver after the group of the command line target was to be
    /// registered. Where it could not be, starting fails with that error, and the driver is gone.
    pub fn group_registered(self, step: InitStep, registered: Result<(), Error>) -> (r: Result<
        (NetconsoleModule, InitStep),
        Error,
    >)
        ensures
            match registered {
                Ok(_) => r == Ok::<(NetconsoleModule, InitStep), Error>((self, step)),
                Err(e) => r == Err::<(NetconsoleModule, InitStep), Error>(e),
            },
    {
        match registered {
            Ok(_) => Ok((self, step)),
            Err(e) => Err(e),
        }
    }

    /// The parameters to set up a target with.
    pub fn enable_request(&self, id: usize) -> (r: Result<NetpollRecord, Error>)
        requires
            id < self@.targets.len(),
        ensures
            ({
                let cfg = self@.targets[id as int].config@;
                if has_device(cfg) {
                    r matches Ok(rec) && rec@ == params_of(cfg)
                } else {
                    r == Err::<NetpollRecord, Error>(Error(EINVAL))
                }
            }),
    {
        match self.targets[id].netpoll_builder() {
            Ok(b) => Ok(b.record()),
            Err(e) => Err(e),
        }
    }

    /// Stores whether a target is enabled: disables it at once, or says what to set up to enable
    /// it.
    pub fn store_enabled(&mut self, id: usize, page: &[u8]) -> (r: Result<EnableStep, Error>)
        requires
            old(self)@.wf(),
            id < old(self)@.targets.len(),
        ensures
            final(self)@.wf(),
            ({
                let target = old(self)@.targets[id as int];
                match bool_of_text(trimmed(page@)) {
                    None => r == Err::<EnableStep, Error>(Error(EINVAL)) && final(self)@
                        == old(self)@,
                    Some(val) => if val == target.enabled {
                        r == Ok::<EnableStep, Error>(EnableStep::Done) && final(self)@ == old(
                            self,
                        )@
                    } else if !val {
                        r == Ok::<EnableStep, Error>(EnableStep::Stopped(target.netpoll))
                            && final(self)@ == old(self)@.stopped(id)
                    } else if has_device(target.config@) {
                        (r matches Ok(EnableStep::SetUp(rec)) && rec@ == params_of(target.config@))
                            && final(self)@ == old(self)@
                    } else {
                        r == Err::<EnableStep, Error>(Error(EINVAL)) && final(self)@ == old(self)@
                    },
                }
            }),
    {
        let val: bool = match parse_bool(page) {
            Ok(val) => val,
            Err(e) => return Err(e),
        };
        if val == self.targets[id].enabled {
            return Ok(EnableStep::Done);
        }
        if val {
            match self.enable_request(id) {
                Ok(rec) => Ok(EnableStep::SetUp(rec)),
                Err(e) => Err(e),
            }
        } else {
            Ok(EnableStep::Stopped(self.stop(id)))
        }
    }

    /// Disables a target and takes it off the list; hands out the instance that it used.
    fn stop(&mut self, id: usize) -> (released: Option<Netpoll>)
        requires
            old(self)@.wf(),
            id < old(self)@.targets.len(),
        ensures
            final(self)@.wf(),
            final(self)@ == old(self)@.stopped(id),
            released == old(self)@.targets[id as int].netpoll,
    {
        proof {
            law_stopped_wf(self@, id);
        }
        assert(self@.targets[id as int].wf());
        self.enabled_targets.remove(id);
        let released: Option<Netpoll> = self.targets[id].release();
        assert(self@.targets =~= old(self)@.stopped(id).targets);
        released
    }

    /// Goes on with enabling a target after device setup, given whether there is memory to list
    /// it. A target that was enabled in the meantime stays as it is.
    pub fn finish_enable_reserved(
        &mut self,
        id: usize,
        outcome: Result<Netpoll, Error>,
        reserved: bool,
    ) -> (r: EnableOutcome)
        requires
            old(self)@.wf(),
            id < old(self)@.targets.len(),
            outcome matches Ok(np) ==> np.enabled(),
        ensures
            final(self)@.wf(),
            match outcome {
                Err(e) => r == (EnableOutcome { result: Err(e), released: None }) && final(self)@
                    == old(self)@,
                Ok(np) => if old(self)@.targets[id as int].enabled {
                    r == (EnableOutcome { result: Ok(()), released: Some(np) }) && final(self)@
                        == old(self)@
                } else if reserved {
                    r == (EnableOutcome { result: Ok(()), released: None }) && final(self)@ == old(
                        self,
                    )@.started(id, np)
                } else {
                    r == (EnableOutcome { result: Err(Error(ENOMEM)), released: Some(np) })
                        && final(self)@ == old(self)@
                },
            },
    {
        let np: Netpoll = match outcome {
            Ok(np) => np,
            Err(e) => return EnableOutcome { result: Err(e), released: None },
        };
        if self.targets[id].enabled {
            return EnableOutcome { result: Ok(()), released: Some(np) };
        }
        self.start(id, np, reserved)
    }

    /// Enables a target and lists it, given whether there is memory to list it; without, the
    /// target is disabled again.
    fn start(&mut self, id: usize, np: Netpoll, reserved: bool) -> (r: EnableOutcome)
        requires
            old(self)@.wf(),
            id < old(self)@.targets.len(),
            !old(self)@.targets[id as int].enabled,
            np.enabled(),
        ensures
            final(self)@.wf(),
            reserved ==> r == (EnableOutcome { result: Ok(()), released: None }) && final(self)@
                == old(self)@.started(id, np),
            !reserved ==> r == (EnableOutcome {
                result: Err(Error(ENOMEM)),
                released: Some(np),
            }) && final(self)@ == old(self)@,
    {
        proof {
            law_installed_wf(self@, id, np);
        }
        assert(self@.targets[id as int].wf());
        let _ = self.targets[id].install(np);
        assert(self@.targets =~= old(self)@.started(id, np).targets);
        match self.enabled_targets.add_reserved(id, reserved) {
            Ok(_) => EnableOutcome { result: Ok(()), released: None },
            Err(e) => {
                let released: Option<Netpoll> = self.targets[id].release();
                assert(self@.targets =~= old(self)@.targets);
                EnableOutcome { result: Err(e), released }
            },
        }
    }

    /// Goes on with enabling a target after device setup.
    pub fn finish_enable(&mut self, id: usize, outcome: Result<Netpoll, Error>) -> (r: EnableOutcome)
        requires
            old(self)@.wf(),
            id < old(self)@.targets.len(),
            outcome matches Ok(np) ==> np.enabled(),
        ensures
            final(self)@.wf(),
            match outcome {
                Err(e) => r == (EnableOutcome { result: Err(e), released: None }) && final(self)@
                    == old(self)@,
                Ok(np) => if old(self)@.targets[id as int].enabled {
                    r == (EnableOutcome { result: Ok(()), released: Some(np) }) && final(self)@
                        == old(self)@
                } else {
                    ||| r == (EnableOutcome { result: Ok(()), released: None }) && final(self)@
                        == old(self)@.started(id, np)
                    ||| r == (EnableOutcome { result: Err(Error(ENOMEM)), released: Some(np) })
                        && final(self)@ == old(self)@
                },
            },
            outcome is Ok && !old(self)@.targets[id as int].enabled ==> room_tried(
                old(self).enabled_targets.list,
                1,
                r.result is Ok,
            ),
    {
        let reserved: bool = self.enabled_targets.reserve();
        self.finish_enable_reserved(id, outcome, reserved)
    }

    /// Takes the target of the command line up, given the outcome of device setup and whether
    /// there is memory to list it. Where it cannot be enabled it stays, disabled.
    pub fn finish_init_reserved(
        &mut self,
        id: usize,
        outcome: Result<Netpoll, Error>,
        reserved: bool,
    ) -> (r: EnableOutcome)
        requires
            old(self)@.wf(),
            id < old(self)@.targets.len(),
            !old(self)@.targets[id as int].enabled,
            outcome matches Ok(np) ==> np.enabled(),
        ensures
            final(self)@.wf(),
            final(self)@ == (ModuleState {
                cmdline_target: Some(id),
                ..match outcome {
                    Ok(np) if reserved => old(self)@.started(id, np),
                    _ => old(self)@,
                }
            }),
            r == (match outcome {
                Err(e) => EnableOutcome { result: Err(e), released: None },
                Ok(np) => if reserved {
                    EnableOutcome { result: Ok(()), released: None }
                } else {
                    EnableOutcome { result: Err(Error(ENOMEM)), released: Some(np) }
                },
            }),
    {
        let r: EnableOutcome = match outcome {
            Ok(np) => self.start(id, np, reserved),
            Err(e) => EnableOutcome { result: Err(e), released: None },
        };
        self.cmdline_target = Some(id);
        r
    }

    /// Takes the target of the command line up, given the outcome of device setup. Where it cannot
    /// be enabled it stays, disabled.
    pub fn finish_init(&mut self, id: usize, outcome: Result<Netpoll, Error>) -> (r: EnableOutcome)
        requires
            old(self)@.wf(),
            id < old(self)@.targets.len(),
            !old(self)@.targets[id as int].enabled,
            outcome matches Ok(np) ==> np.enabled(),
        ensures
            final(self)@.wf(),
            match outcome {
                Err(e) => r == (EnableOutcome { result: Err(e), released: None }) && final(self)@
                    == (ModuleState { cmdline_target: Some(id), ..old(self)@ }),
                Ok(np) => {
                    ||| r == (EnableOutcome { result: Ok(()), released: None }) && final(self)@ == (
                    ModuleState { cmdline_target: Some(id), ..old(self)@.started(id, np) })
                    ||| r == (EnableOutcome { result: Err(Error(ENOMEM)), released: Some(np) })
                        && final(self)@ == (ModuleState {
                        cmdline_target: Some(id),
                        ..old(self)@
                    })
                },
            },
            outcome is Ok ==> room_tried(old(self).enabled_targets.list, 1, r.result is Ok),
    {
        let reserved: bool = self.enabled_targets.reserve();
        self.finish_init_reserved(id, outcome, reserved)
    }

    /// Enables a target that was made for a waiting configuration, given the outcome of device
    /// setup. It is not listed.
    pub fn finish_group(&mut self, id: usize, outcome: Result<Netpoll, Error>) -> (r: EnableOutcome)
        requires
            old(self)@.wf(),
            id < old(self)@.targets.len(),
            outcome matches Ok(np) ==> np.enabled(),
        ensures
            final(self)@.wf(),
            match outcome {
                Err(e) => r == (EnableOutcome { result: Err(e), released: None }) && final(self)@
                    == old(self)@,
                Ok(np) => r == (EnableOutcome {
                    result: Ok(()),
                    released: old(self)@.targets[id as int].netpoll,
                }) && final(self)@ == old(self)@.installed(id, np),
            },
    {
        match outcome {
            Ok(np) => {
                proof {
                    law_installed_wf(self@, id, np);
                }
                assert(self@.targets[id as int].wf());
                let released: Option<Netpoll> = self.targets[id].install(np);
                assert(self@.targets =~= old(self)@.installed(id, np).targets);
                EnableOutcome { result: Ok(()), released }
            },
            Err(e) => EnableOutcome { result: Err(e), released: None },
        }
    }

    /// The driver is removed: the target of the command line is disabled and has to be
    /// unregistered.
    pub fn exit(&mut self) -> (r: Option<ExitStep>)
        requires
            old(self)@.wf(),
        ensures
            final(self)@.wf(),
            match old(self)@.cmdline_target {
                None => r is None && final(self)@ == old(self)@,
                Some(id) => r == Some(
                    ExitStep { id, released: old(self)@.targets[id as int].netpoll },
                ) && final(self)@ == (if old(self)@.targets[id as int].enabled {
                    old(self)@.stopped(id)
                } else {
                    old(self)@
                }),
            },
    {
        match self.cmdline_target {
            Some(id) => {
                assert(self@.targets[id as int].wf());
                let released: Option<Netpoll> = if self.targets[id].enabled {
                    self.stop(id)
                } else {
                    None
                };
                Some(ExitStep { id, released })
            },
            None => None,
        }
    }

    /// Hands a message to every listed target: what has to be sent, in the order of the list.
    pub fn send_to_all(&mut self, msg: &[u8], info: &SystemInfo) -> (deliveries: Vec<Delivery>)
        requires
            old(self)@.wf(),
        ensures
            final(self)@.wf(),
            final(self)@ == old(self)@.after_packets(),
            deliveries@.len() == old(self)@.listed.len(),
            forall|k: int|
                0 <= k < deliveries@.len() ==> delivers(
                    #[trigger] deliveries@[k],
                    old(self)@,
                    k,
                    msg@,
                    info@,
                ),
    {
        let ghost before = self@;
        let mut deliveries: Vec<Delivery> = Vec::new();
        let mut k: usize = 0;
        while k < self.enabled_targets.list.len()
            invariant
                before.wf(),
                before == old(self)@,
                k <= before.listed.len(),
                deliveries@.len() == k,
                self@.targets.len() == before.targets.len(),
                self@ == (ModuleState { targets: self@.targets, ..before }),
                forall|i: int|
                    0 <= i < before.targets.len() ==> #[trigger] self@.targets[i] == (
                    if among(before.listed.take(k as int), i) {
                        before.targets[i].after_packets()
                    } else {
                        before.targets[i]
                    }),
                forall|j: int|
                    0 <= j < k ==> delivers(
                        #[trigger] deliveries@[j],
                        before,
                        j,
                        msg@,
                        info@,
                    ),
            decreases before.listed.len() - k,
        {
            let id: usize = self.enabled_targets.list[k];
            let ghost listed = before.listed;
            assert(listed[k as int] == id);
            assert(!among(listed.take(k as int), id as int)) by {
                assert forall|j: int| 0 <= j < k implies #[trigger] listed.take(k as int)[j]
                    != id by {
                    assert(listed[j] != listed[k as int]);
                }
            }
            assert(self@.targets[id as int] == before.targets[id as int]);
            assert(before.targets[id as int].wf());
            let ghost targets = self@.targets;
            let packets: Vec<Vec<u8>> = self.targets[id].send_msg(msg, info);
            assert(self@.targets =~= targets.update(
                id as int,
                before.targets[id as int].after_packets(),
            ));
            deliveries.push((id, packets));
            proof {
                let shorter = listed.take(k as int);
                let longer = listed.take(k + 1);
                assert forall|i: int| 0 <= i < before.targets.len() implies #[trigger]
                    self@.targets[i] == (if among(longer, i) {
                    before.targets[i].after_packets()
                } else {
                    before.targets[i]
                }) by {
                    assert(longer[k as int] == id);
                    if i != id {
                        assert(targets[i] == self@.targets[i]);
                        assert forall|j: int|
                            0 <= j < longer.len() && #[trigger] longer[j] == i implies among(
                            shorter,
                            i,
                        ) by {
                            assert(shorter[j] == i);
                        }
                        assert forall|j: int|
                            0 <= j < shorter.len() && #[trigger] shorter[j] == i implies among(
                            longer,
                            i,
                        ) by {
                            assert(longer[j] == i);
                        }
                    }
                }
            }
            k += 1;
        }
        proof {
            assert(before.listed.take(k as int) =~= before.listed);
            assert(self@.targets =~= before.after_packets().targets);
            lemma_after_packets_wf(before);
        }
        deliveries
    }

    /// Takes note of how sending the packets of a message to a target went.
    pub fn note_sent(&mut self, id: usize, results: &[Result<i32, Error>])
        requires
            old(self)@.wf(),
            id < old(self)@.targets.len(),
            message_failed(results@) ==> old(self)@.targets[id as int].xmit_errors < u64::MAX,
        ensures
            final(self)@.wf(),
            final(self)@ == (ModuleState {
                targets: old(self)@.targets.update(
                    id as int,
                    old(self)@.targets[id as int].after_results(results@),
                ),
                ..old(self)@
            }),
    {
        assert(self@.targets[id as int].wf());
        self.targets[id].note_sent(results);
    }
}

/// What starting the driver gives. Without a configuration there is no target and nothing left to
/// do. With one there is a disabled target that has it, unless there was no memory.
pub open spec fn initialised(
    cfg: Option<ParsedConfig>,
    reserved: bool,
    r: Result<(NetconsoleModule, Option<InitStep>), Error>,
) -> bool {
    match cfg {
        None => {
            &&& r matches Ok((m, step))
            &&& m@.wf()
            &&& m@.targets.len() == 0
            &&& m@.listed.len() == 0
            &&& m@.configs.len() == 0
            &&& m@.cmdline_target is None
            &&& step is None
        },
        Some(c) => if reserved {
            &&& r matches Ok((m, Some(step)))
            &&& m@.wf()
            &&& m@.targets.len() == 1
            &&& m@.targets[0].fresh(c@)
            &&& m@.listed.len() == 0
            &&& m@.configs.len() == 0
            &&& m@.cmdline_target is None
            &&& step.id == 0
            &&& step.group@ == ascii("cmdline0"@)
            &&& if has_device(c@) {
                step.request matches Ok(rec) && rec@ == params_of(c@)
            } else {
                step.request == Err::<NetpollRecord, Error>(Error(EINVAL))
            }
        } else {
            r == Err::<(NetconsoleModule, Option<InitStep>), Error>(Error(ENOMEM))
        },
    }
}

/// The state after a target was made of a configuration, where that has succeeded; `configs` are
/// the configurations that still wait.
pub open spec fn made_from(
    before: ModuleState,
    after: ModuleState,
    success: bool,
    cfg: Option<ParsedConfig>,
    configs: Seq<(Seq<u8>, ParsedConfig)>,
) -> bool {
    if success {
        &&& after.targets.len() == before.targets.len() + 1
        &&& after.targets.last().fresh(
            match cfg {
                Some(c) => c@,
                None => default_config(),
            },
        )
        &&& after == ModuleState {
            targets: before.targets.push(after.targets.last()),
            configs,
            ..before
        }
    } else {
        after == ModuleState { configs, ..before }
    }
}

/// What the target in place `k` of the list is sent.
pub open spec fn delivers(
    delivery: Delivery,
    m: ModuleState,
    k: int,
    msg: Seq<u8>,
    facts: SystemFacts,
) -> bool {
    &&& delivery.0 == m.listed[k]
    &&& lines_view(delivery.1@) == m.targets[m.listed[k] as int].packets(msg, facts)
}

/// Every listed target is sent the message, and sent it first.
pub proof fn law_message_reaches_listed(
    m: ModuleState,
    delivery: Delivery,
    k: int,
    msg: Seq<u8>,
    facts: SystemFacts,
)
    requires
        m.wf(),
        0 <= k < m.listed.len(),
        delivers(delivery, m, k, msg, facts),
    ensures
        delivery.1@.len() > 0,
        delivery.1@[0]@ == msg,
{
    let id = m.listed[k];
    assert(m.targets[id as int].enabled);
    assert(m.targets[id as int].wf());
    law_message_goes_first(m.targets[id as int], msg, facts);
    assert(lines_view(delivery.1@)[0] == msg);
}

/// Making packets keeps the state well formed.
proof fn lemma_after_packets_wf(m: ModuleState)
    requires
        m.wf(),
    ensures
        m.after_packets().wf(),
{
    let after = m.after_packets();
    assert forall|i: int| 0 <= i < after.targets.len() implies (#[trigger] after.targets[i]).wf() by {
        assert(m.targets[i].wf());
    }
    assert forall|k: int| 0 <= k < after.listed.len() implies (#[trigger] after.listed[k])
        < after.targets.len() && after.targets[after.listed[k] as int].enabled by {
        assert(m.targets[m.listed[k] as int].enabled);
    }
}

/// Starting, installing and stopping change one target, its place on the list, and nothing else.
pub proof fn law_one_target_changes(m: ModuleState, id: usize, other: int, np: Netpoll)
    requires
        id < m.targets.len(),
        0 <= other < m.targets.len(),
        other != id,
    ensures
        m.installed(id, np).targets.len() == m.targets.len(),
        m.installed(id, np).targets[id as int] == (NetconsoleTarget {
            enabled: true,
            netpoll: Some(np),
            ..m.targets[id as int]
        }),
        m.installed(id, np).targets[other] == m.targets[other],
        m.installed(id, np).listed == m.listed,
        m.installed(id, np).configs == m.configs,
        m.installed(id, np).cmdline_target == m.cmdline_target,
        m.started(id, np).targets == m.installed(id, np).targets,
        m.started(id, np).listed == m.listed + seq![id],
        m.started(id, np).configs == m.configs,
        m.started(id, np).cmdline_target == m.cmdline_target,
        m.stopped(id).targets.len() == m.targets.len(),
        m.stopped(id).targets[id as int] == (NetconsoleTarget {
            enabled: false,
            netpoll: None,
            ..m.targets[id as int]
        }),
        m.stopped(id).targets[other] == m.targets[other],
        m.stopped(id).listed == without(m.listed, id),
        m.stopped(id).configs == m.configs,
        m.stopped(id).cmdline_target == m.cmdline_target,
{
    assert(m.started(id, np).listed =~= m.listed + seq![id]);
}

/// A message makes the packets of the listed targets, each once, and changes no other target.
pub proof fn law_message_touches_listed_only(m: ModuleState, i: int)
    requires
        0 <= i < m.targets.len(),
    ensures
        m.after_packets().targets.len() == m.targets.len(),
        (exists|k: int| 0 <= k < m.listed.len() && #[trigger] m.listed[k] == i)
            ==> m.after_packets().targets[i] == m.targets[i].after_packets(),
        (forall|k: int| 0 <= k < m.listed.len() ==> #[trigger] m.listed[k] != i)
            ==> m.after_packets().targets[i] == m.targets[i],
        m.after_packets().listed == m.listed,
        m.after_packets().configs == m.configs,
        m.after_packets().cmdline_target == m.cmdline_target,
{
}

/// A delivery names the target in its place on the list and carries all packets of that target,
/// each of them whole and in their order.
pub proof fn law_delivery_is_whole(
    m: ModuleState,
    delivery: Delivery,
    k: int,
    msg: Seq<u8>,
    facts: SystemFacts,
    i: int,
)
    requires
        delivers(delivery, m, k, msg, facts),
        0 <= k < m.listed.len(),
    ensures
        delivery.0 == m.listed[k],
        delivery.1@.len() == m.targets[m.listed[k] as int].packets(msg, facts).len(),
        0 <= i < delivery.1@.len() ==> delivery.1@[i]@ == m.targets[m.listed[k] as int].packets(
            msg,
            facts,
        )[i],
{
    law_lines_view_is_linewise(delivery.1@);
}

/// The state of the driver is that of its parts. It is well formed where every target is, where
/// each listed target exists, is enabled and is listed once, and where the target of the command
/// line exists.
pub proof fn law_driver_state(m: NetconsoleModule)
    ensures
        m@.targets == m.targets@,
        m@.listed == m.enabled_targets.list@,
        m@.configs == m.cmdline_configs@,
        m@.cmdline_target == m.cmdline_target,
        m@.wf() ==> {
            &&& forall|i: int| 0 <= i < m.targets@.len() ==> (#[trigger] m.targets@[i]).wf()
            &&& forall|k: int|
                0 <= k < m.enabled_targets.list@.len() ==> (#[trigger] m.enabled_targets.list@[k])
                    < m.targets@.len()
                    && m.targets@[m.enabled_targets.list@[k] as int].enabled
            &&& forall|j: int, k: int|
                0 <= j < k < m.enabled_targets.list@.len() ==> #[trigger] m.enabled_targets.list@[j]
                    != #[trigger] m.enabled_targets.list@[k]
            &&& m.cmdline_target matches Some(id) ==> id < m.targets@.len()
        },
{
}

/// What the driver is started with: without a configuration there are no targets. With one there
/// is a target that has it, disabled and under the name `cmdline0`, and the parameters to set it
/// up with are those that it stands for; or there was no memory.
pub proof fn law_start_of_the_driver(
    cfg: Option<ParsedConfig>,
    reserved: bool,
    r: Result<(NetconsoleModule, Option<InitStep>), Error>,
)
    requires
        initialised(cfg, reserved, r),
    ensures
        cfg is None ==> (r matches Ok((m, step)) && step is None && m.targets@.len() == 0
            && m.enabled_targets.list@.len() == 0 && m.cmdline_configs@.len() == 0
            && m.cmdline_target is None && m@.wf()),
        cfg is Some && !reserved ==> r == Err::<(NetconsoleModule, Option<InitStep>), Error>(
            Error(-12i32),
        ),
        cfg is Some && reserved ==> (r matches Ok((m, Some(step))) && m@.wf()
            && m.targets@.len() == 1 && m.targets@[0].fresh(cfg.unwrap()@) && m.enabled_targets.list@.len()
            == 0 && m.cmdline_configs@.len() == 0 && m.cmdline_target is None && step.id == 0
            && step.group@ == ascii("cmdline0"@) && (has_device(cfg.unwrap()@) ==> (step.request matches Ok(
            rec,
        ) && rec@ == params_of(cfg.unwrap()@))) && (!has_device(cfg.unwrap()@) ==> step.request == Err::<
            NetpollRecord,
            Error,
        >(Error(-22i32)))),
{
}

/// A target that was made of a configuration stands behind the others, which stay as they were;
/// nothing is listed or kept that was not before.
pub proof fn law_made_target(
    before: ModuleState,
    after: ModuleState,
    success: bool,
    cfg: Option<ParsedConfig>,
    configs: Seq<(Seq<u8>, ParsedConfig)>,
    i: int,
)
    requires
        made_from(before, after, success, cfg, configs),
    ensures
        after.configs == configs,
        after.listed == before.listed,
        after.cmdline_target == before.cmdline_target,
        success ==> after.targets.len() == before.targets.len() + 1,
        success && cfg is Some ==> after.targets[before.targets.len() as int].fresh(
            cfg.unwrap()@,
        ),
        success && cfg is None ==> after.targets[before.targets.len() as int].fresh(
            default_config(),
        ),
        !success ==> after.targets == before.targets,
        0 <= i < before.targets.len() ==> after.targets[i] == before.targets[i],
{
}

/// A parameter that is not given, or empty, gives nothing. Any other gives what parsing it gives:
/// the configuration, or the reason that it is refused.
pub proof fn law_parameter<F: Fn(&[u8]) -> Option<IpAddr>>(
    parse_ip: F,
    param: Option<&[u8]>,
    answer: (Option<ParsedConfig>, Option<CmdlineRefusal>),
)
    requires
        param_answer(parse_ip, param, answer),
    ensures
        param is None ==> answer.0 is None && answer.1 is None,
        param matches Some(text) ==> text@.len() == 0 ==> answer.0 is None && answer.1 is None,
        param matches Some(text) ==> text@.len() > 0 ==> (answer.0 is Some <==> answer.1 is None),
        param matches Some(text) ==> text@.len() > 0 && answer.0 is Some ==> explained_answer(
            parse_ip,
            text@,
            Ok::<ParsedConfig, CmdlineRefusal>(answer.0.unwrap()),
        ),
        param matches Some(text) ==> text@.len() > 0 && answer.1 is Some ==> explained_answer(
            parse_ip,
            text@,
            Err::<ParsedConfig, CmdlineRefusal>(answer.1.unwrap()),
        ),
{
}

} // verus!
