//! A target: a place that messages are sent to.
use vstd::prelude::*;
use crate::bytes::{
    ascii,
    c_text,
    lemma_until,
    lemma_until_unique,
    lines_view,
    overlay,
    strlen,
    to_vec,
};
use crate::driver::cmdline::{
    config_of,
    law_parsed_config_is_fieldwise,
    CmdlineText,
    ParsedConfig,
};
use crate::driver::entry::law_entry_line_is_whole;
use crate::driver::config::{
    clipped,
    default_config,
    dev_name_buffer,
    law_config_is_fieldwise,
    law_dev_name_buffer_is_bytewise,
    ConfigState,
    TargetConfig,
};
use crate::driver::sysdata::{
    feature_on,
    lemma_no_feature,
    sysdata_text,
    write_sysdata,
    SysdataFeature,
    SystemFacts,
    SystemInfo,
    SYSDATA_BUF_SIZE,
    SYSDATA_MSGID,
};
use crate::driver::userdata::{
    law_text_tells_of_entry,
    userdata_text,
    KeyValue,
    Userdata,
    UserdataCache,
};
use crate::error::{result_of, Error, EINVAL};
use crate::net::ip::IpValue;
use crate::net::netpoll::{
    netconsole_name,
    Netpoll,
    NetpollBuilder,
    NetpollParams,
    NetpollRecord,
    IFNAMSIZ,
};

pub mod attributes;

verus! {

/// A netconsole target.
#[derive(Debug)]
pub struct NetconsoleTarget {
    /// Whether this target is enabled.
    pub enabled: bool,
    /// How packets are addressed.
    pub config: ConfigState,
    /// The netpoll instance, while the target is enabled.
    pub netpoll: Option<Netpoll>,
    /// Number of messages that could not be sent.
    pub xmit_errors: u64,
    /// The pre-formatted userdata.
    pub userdata_cache: UserdataCache,
    /// Flags of the sysdata features that are on.
    pub sysdata_fields: u32,
    /// Number of the last message that was numbered.
    pub msg_counter: u32,
    /// The userdata.
    pub userdata: Userdata,
}

/// The parameters that a configuration stands for. The address family is that of the remote
/// address.
pub open spec fn params_of(cfg: TargetConfig) -> NetpollParams {
    NetpollParams {
        name: ascii("netconsole"@),
        dev_name: dev_name_buffer(c_text(cfg.dev_name)),
        local_port: cfg.local_port,
        remote_port: cfg.remote_port,
        ipv6: cfg.remote_ip is V6,
        local_ip: cfg.local_ip.inet_bytes(),
        remote_ip: cfg.remote_ip.inet_bytes(),
        remote_mac: cfg.remote_mac,
    }
}

/// The device name leaves room for a NUL.
pub open spec fn has_device(cfg: TargetConfig) -> bool {
    c_text(cfg.dev_name).len() < IFNAMSIZ
}

/// The number behind a message number; the numbers start again where they end.
pub open spec fn next_number(n: u32) -> u32 {
    if n == u32::MAX {
        0
    } else {
        (n + 1) as u32
    }
}

/// The message counter after the features in `fields` were written down.
pub open spec fn counted(counter: u32, fields: u32) -> u32 {
    if feature_on(fields, SysdataFeature::Msgid) {
        next_number(counter)
    } else {
        counter
    }
}

/// A text as a packet, where there is any text.
pub open spec fn packet_if_any(text: Seq<u8>) -> Seq<Seq<u8>> {
    if text.len() > 0 {
        seq![text]
    } else {
        seq![]
    }
}

/// The message itself, which is the first packet, could not be sent.
pub open spec fn message_failed(results: Seq<Result<i32, Error>>) -> bool {
    results.len() > 0 && results[0] is Err
}

impl NetconsoleTarget {
    /// The parts are well formed, and there is a netpoll instance, which is set up, exactly while
    /// the target is enabled.
    pub open spec fn wf(self) -> bool {
        &&& self.userdata.wf()
        &&& self.userdata_cache.wf()
        &&& self.enabled <==> self.netpoll is Some
        &&& self.netpoll matches Some(np) ==> np.enabled()
    }

    /// The target has been created with a configuration, and nothing has happened to it since.
    pub open spec fn fresh(self, cfg: TargetConfig) -> bool {
        &&& !self.enabled
        &&& self.config@ == cfg
        &&& self.netpoll is None
        &&& self.xmit_errors == 0
        &&& self.userdata_cache@ == Seq::<u8>::empty()
        &&& self.sysdata_fields == 0
        &&& self.msg_counter == 0
        &&& self.userdata@ == Seq::<KeyValue>::empty()
    }

    /// What accompanies the next message.
    pub open spec fn next_sysdata(self, facts: SystemFacts) -> Seq<u8> {
        sysdata_text(
            self.sysdata_fields,
            facts,
            counted(self.msg_counter, self.sysdata_fields),
            SYSDATA_BUF_SIZE as nat,
        )
    }

    /// The packets that a message is sent as: the message itself, then the userdata and the
    /// sysdata where there are any. A target that is not enabled sends nothing.
    pub open spec fn packets(self, msg: Seq<u8>, facts: SystemFacts) -> Seq<Seq<u8>> {
        if self.netpoll is Some {
            seq![msg] + packet_if_any(self.userdata_cache@) + packet_if_any(
                self.next_sysdata(facts),
            )
        } else {
            seq![]
        }
    }

    /// The target after its packets were made.
    pub open spec fn after_packets(self) -> NetconsoleTarget {
        if self.netpoll is Some {
            NetconsoleTarget {
                msg_counter: counted(self.msg_counter, self.sysdata_fields),
                ..self
            }
        } else {
            self
        }
    }

    /// Creates a disabled target, from a parsed configuration or from the defaults.
    pub fn new_with_config(cfg: Option<ParsedConfig>) -> (target: NetconsoleTarget)
        ensures
            target.wf(),
            target.fresh(
                match cfg {
                    Some(c) => c@,
                    None => default_config(),
                },
            ),
    {
        let cfg: ParsedConfig = match cfg {
            Some(c) => c,
            None => ParsedConfig::new(),
        };
        NetconsoleTarget {
            enabled: false,
            config: ConfigState {
                extended: cfg.extended,
                release: cfg.release,
                dev_name: cfg.dev_name,
                local_port: cfg.local_port,
                remote_port: cfg.remote_port,
                local_ip: cfg.local_ip,
                remote_ip: cfg.remote_ip,
                remote_mac: cfg.remote_mac,
            },
            netpoll: None,
            xmit_errors: 0,
            userdata_cache: UserdataCache::new(),
            sysdata_fields: 0,
            msg_counter: 0,
            userdata: Userdata::new(),
        }
    }

    /// A builder for the netpoll instance that the configuration describes.
    pub fn netpoll_builder(&self) -> (r: Result<NetpollBuilder, Error>)
        ensures
            has_device(self.config@) ==> (r matches Ok(b) && b@.params() == params_of(
                self.config@,
            )),
            !has_device(self.config@) ==> r == Err::<NetpollBuilder, Error>(Error(EINVAL)),
    {
        let cfg: ConfigState = self.config;
        let len: usize = strlen(&cfg.dev_name);
        let name = &cfg.dev_name[0..len];
        assert(name@ =~= c_text(self.config@.dev_name));
        let builder: NetpollBuilder = NetpollBuilder::new().name(netconsole_name());
        match builder.dev_name_bytes(name) {
            Ok(b) => {
                let b: NetpollBuilder = b.local_port(cfg.local_port).remote_port(
                    cfg.remote_port,
                ).local_ip(cfg.local_ip).remote_ip(cfg.remote_ip).remote_mac(cfg.remote_mac);
                proof {
                    let zeros = Seq::new(IFNAMSIZ as nat, |i: int| 0u8);
                    assert(overlay(zeros, name@.push(0u8)) =~= dev_name_buffer(name@));
                }
                Ok(b)
            },
            Err(e) => Err(e),
        }
    }

    /// Enables the target with a netpoll instance that was set up; hands out the instance that it
    /// replaces.
    pub fn install(&mut self, np: Netpoll) -> (released: Option<Netpoll>)
        requires
            old(self).wf(),
            np.enabled(),
        ensures
            final(self).wf(),
            *final(self) == (NetconsoleTarget { enabled: true, netpoll: Some(np), ..*old(self) }),
            released == old(self).netpoll,
    {
        let released: Option<Netpoll> = self.netpoll.take();
        self.netpoll = Some(np);
        self.enabled = true;
        released
    }

    /// Disables the target; hands out the netpoll instance that it used.
    pub fn release(&mut self) -> (released: Option<Netpoll>)
        requires
            old(self).wf(),
        ensures
            final(self).wf(),
            *final(self) == (NetconsoleTarget { enabled: false, netpoll: None, ..*old(self) }),
            released == old(self).netpoll,
    {
        self.enabled = false;
        self.netpoll.take()
    }

    /// Sets up a netpoll instance and enables the target; hands out the instance that it replaces.
    /// `netpoll_setup` gets the parameters that the configuration stands for.
    pub fn enable<F: FnOnce(NetpollRecord) -> (NetpollRecord, i32)>(
        &mut self,
        netpoll_setup: F,
    ) -> (r: Result<Option<Netpoll>, Error>)
        requires
            old(self).wf(),
            forall|rec: NetpollRecord| call_requires(netpoll_setup, (rec,)),
        ensures
            final(self).wf(),
            !has_device(old(self).config@) ==> r == Err::<Option<Netpoll>, Error>(Error(EINVAL))
                && *final(self) == *old(self),
            has_device(old(self).config@) ==> exists|rec: NetpollRecord, out: (NetpollRecord, i32)|
                #[trigger]
                call_ensures(netpoll_setup, (rec,), out) && rec@ == params_of(old(self).config@) && (
                match result_of(out.1) {
                    Ok(_) => {
                        &&& r == Ok::<Option<Netpoll>, Error>(old(self).netpoll)
                        &&& final(self).netpoll matches Some(np)
                        &&& np.record() == out.0
                        &&& *final(self) == (NetconsoleTarget {
                            enabled: true,
                            netpoll: Some(np),
                            ..*old(self)
                        })
                    },
                    Err(e) => r == Err::<Option<Netpoll>, Error>(e) && *final(self) == *old(self),
                }),
    {
        let builder: NetpollBuilder = match self.netpoll_builder() {
            Ok(b) => b,
            Err(e) => return Err(e),
        };
        match builder.setup(netpoll_setup) {
            Ok(np) => Ok(self.install(np)),
            Err(e) => Err(e),
        }
    }

    /// Writes what accompanies a message over the beginning of a buffer, and counts the message
    /// where messages are numbered; returns the number of bytes written.
    pub fn prepare_sysdata(&mut self, fields: u32, info: &SystemInfo, buf: &mut [u8]) -> (n: usize)
        ensures
            ({
                let number = counted(old(self).msg_counter, fields);
                let text = sysdata_text(fields, info@, number, old(buf)@.len());
                &&& *final(self) == (NetconsoleTarget { msg_counter: number, ..*old(self) })
                &&& n == text.len() <= old(buf)@.len()
                &&& final(buf)@ == overlay(old(buf)@, text)
            }),
    {
        if fields & SYSDATA_MSGID != 0 {
            self.msg_counter = self.msg_counter.wrapping_add(1);
        }
        write_sysdata(fields, info, self.msg_counter, buf)
    }

    /// The packets that send a message, in the order in which they are sent.
    pub fn send_msg(&mut self, msg: &[u8], info: &SystemInfo) -> (packets: Vec<Vec<u8>>)
        requires
            old(self).wf(),
        ensures
            final(self).wf(),
            *final(self) == old(self).after_packets(),
            lines_view(packets@) == old(self).packets(msg@, info@),
    {
        let mut packets: Vec<Vec<u8>> = Vec::new();
        if self.netpoll.is_none() {
            assert(lines_view(packets@) =~= seq![]);
            return packets;
        }
        packets.push(to_vec(msg));
        assert(lines_view(packets@) =~= seq![msg@]);
        if self.userdata_cache.len > 0 {
            if let Some(data) = &self.userdata_cache.data {
                packets.push(to_vec(data.as_slice()));
            }
        }
        let ghost so_far = seq![msg@] + packet_if_any(self.userdata_cache@);
        assert(lines_view(packets@) =~= so_far);
        let fields: u32 = self.sysdata_fields;
        if fields != 0 {
            let mut buf: [u8; SYSDATA_BUF_SIZE] = [0u8; SYSDATA_BUF_SIZE];
            let len: usize = self.prepare_sysdata(fields, info, &mut buf);
            if len > 0 {
                let text = &buf[0..len];
                assert(text@ =~= old(self).next_sysdata(info@));
                packets.push(to_vec(text));
            }
        } else {
            proof {
                lemma_no_feature(SysdataFeature::CpuNr);
                lemma_no_feature(SysdataFeature::Taskname);
                lemma_no_feature(SysdataFeature::Release);
                lemma_no_feature(SysdataFeature::Msgid);
            }
        }
        assert(lines_view(packets@) =~= so_far + packet_if_any(old(self).next_sysdata(info@)));
        packets
    }

    /// The target after its packets were sent with these results.
    pub open spec fn after_results(self, results: Seq<Result<i32, Error>>) -> NetconsoleTarget {
        if message_failed(results) {
            NetconsoleTarget { xmit_errors: (self.xmit_errors + 1) as u64, ..self }
        } else {
            self
        }
    }

    /// Takes note of how sending the packets of a message went: a failure of the message itself is
    /// counted, one of what accompanies it is not.
    pub fn note_sent(&mut self, results: &[Result<i32, Error>])
        requires
            message_failed(results@) ==> old(self).xmit_errors < u64::MAX,
        ensures
            *final(self) == old(self).after_results(results@),
    {
        if results.len() > 0 && results[0].is_err() {
            self.xmit_errors = self.xmit_errors + 1;
        }
    }

    /// Sends packets in their order, each of them once and whatever became of those before it;
    /// hands out the state of the sender behind the last, and how each went. A target without a
    /// netpoll instance sends nothing.
    pub fn transmit<S, F: Fn(S, &NetpollRecord, &[u8], i32) -> (S, i32)>(
        &self,
        packets: &Vec<Vec<u8>>,
        start: S,
        netpoll_send_udp: F,
    ) -> (out: (S, Vec<Result<i32, Error>>))
        requires
            self.wf(),
            self.netpoll matches Some(np) ==> forall|state: S, msg: &[u8], len: i32|
                len == msg@.len() as i32 ==> #[trigger] call_requires(
                    netpoll_send_udp,
                    (state, &np.record(), msg, len),
                ),
        ensures
            match self.netpoll {
                None => out.0 == start && out.1@.len() == 0,
                Some(np) => exists|states: Seq<S>| #[trigger]
                    np.sent_in_turn(lines_view(packets@), netpoll_send_udp, states, out.1@)
                        && states[0] == start && states.last() == out.0,
            },
    {
        match &self.netpoll {
            Some(np) => np.send_in_turn(packets, start, netpoll_send_udp),
            None => (start, Vec::new()),
        }
    }
}

/// The default device name, and one that a command line gives, leaves room for a NUL, so that
/// enabling does not fail for it.
pub proof fn law_parsed_config_has_device(
    fields: CmdlineText,
    local_ip: Option<IpValue>,
    remote_ip: IpValue,
)
    ensures
        has_device(default_config()),
        has_device(config_of(fields, local_ip, remote_ip)),
{
    reveal_strlit("eth0");
    let default = dev_name_buffer(ascii("eth0"@));
    lemma_until(default, 0);
    assert(default[4] == 0);
    let given = dev_name_buffer(clipped(fields.dev_name));
    lemma_until(given, 0);
    assert(given[clipped(fields.dev_name).len() as int] == 0);
}

/// The first packet of a message is the message; a target that is not enabled sends none, and
/// counts none.
pub proof fn law_message_goes_first(target: NetconsoleTarget, msg: Seq<u8>, facts: SystemFacts)
    requires
        target.wf(),
    ensures
        target.enabled ==> target.packets(msg, facts).len() > 0 && target.packets(msg, facts)[0]
            == msg,
        !target.enabled ==> target.packets(msg, facts).len() == 0 && target.after_packets()
            == target,
{
}

/// Of the packets of a message only the message itself counts as an error, and it counts once.
pub proof fn law_only_the_message_counts(
    target: NetconsoleTarget,
    results: Seq<Result<i32, Error>>,
)
    requires
        target.xmit_errors < u64::MAX,
    ensures
        target.after_results(results).xmit_errors == target.xmit_errors + (if results.len() > 0
            && results[0] is Err {
            1int
        } else {
            0int
        }),
        results.len() > 0 ==> target.after_results(results) == target.after_results(
            seq![results[0]],
        ),
{
}

/// A target without userdata and sysdata sends the message and nothing else.
pub proof fn law_plain_message(target: NetconsoleTarget, msg: Seq<u8>, facts: SystemFacts)
    requires
        target.wf(),
        target.enabled,
        target.userdata_cache@.len() == 0,
        target.sysdata_fields == 0,
    ensures
        target.packets(msg, facts) == seq![msg],
        target.after_packets() == target,
{
    lemma_no_feature(SysdataFeature::CpuNr);
    lemma_no_feature(SysdataFeature::Taskname);
    lemma_no_feature(SysdataFeature::Release);
    lemma_no_feature(SysdataFeature::Msgid);
    assert(target.packets(msg, facts) =~= seq![msg]);
}

/// What a message is sent as, packet by packet: the message itself; then the cached userdata, byte
/// for byte, where there is any; then the sysdata, whole, where there is any. There are no other
/// packets.
pub proof fn law_packets_are_whole(target: NetconsoleTarget, msg: Seq<u8>, facts: SystemFacts)
    requires
        target.wf(),
        target.enabled,
    ensures
        target.packets(msg, facts)[0] == msg,
        target.userdata_cache.data matches Some(data) ==> target.packets(msg, facts)[1] == data@,
        target.next_sysdata(facts).len() > 0 ==> target.packets(msg, facts).last()
            == target.next_sysdata(facts),
        target.packets(msg, facts).len() == 1 + (if target.userdata_cache.data is Some {
            1int
        } else {
            0int
        }) + (if target.next_sysdata(facts).len() > 0 {
            1int
        } else {
            0int
        }),
{
}

/// Where the cache is up to date, the line of every entry that has a value is in the packet behind
/// the message: its key and its value, whole.
pub proof fn law_every_entry_is_sent(
    target: NetconsoleTarget,
    msg: Seq<u8>,
    facts: SystemFacts,
    i: int,
)
    requires
        target.wf(),
        target.enabled,
        target.userdata_cache@ == userdata_text(target.userdata@),
        0 <= i < target.userdata@.len(),
        target.userdata@[i].value.len() > 0,
    ensures
        target.packets(msg, facts).len() >= 2,
        exists|front: Seq<u8>, back: Seq<u8>|
            target.packets(msg, facts)[1] == #[trigger] (front + (seq![32u8]
                + target.userdata@[i].key + seq![61u8] + target.userdata@[i].value + seq![10u8])
                + back),
{
    let items = target.userdata@;
    law_text_tells_of_entry(items, i);
    law_entry_line_is_whole(items[i].key, items[i].value);
    let front = userdata_text(items.take(i));
    let back = userdata_text(items.skip(i + 1));
    law_packets_are_whole(target, msg, facts);
    assert(target.packets(msg, facts)[1] == front + (seq![32u8] + items[i].key + seq![61u8]
        + items[i].value + seq![10u8]) + back);
}

/// Messages are numbered where the bit for it is set: the number is one more than the last, zero
/// behind the greatest, and it is kept. Where the bit is not set the last number stays. Sending
/// changes nothing else of a target.
pub proof fn law_messages_are_numbered(target: NetconsoleTarget, facts: SystemFacts)
    requires
        target.netpoll is Some,
    ensures
        ({
            let number = if target.sysdata_fields & 8 != 0 {
                (target.msg_counter as int + 1) % 0x1_0000_0000
            } else {
                target.msg_counter as int
            };
            &&& target.after_packets() == NetconsoleTarget { msg_counter: number as u32, ..target }
            &&& target.after_packets().msg_counter == number
            &&& target.next_sysdata(facts) == sysdata_text(
                target.sysdata_fields,
                facts,
                number as u32,
                1024,
            )
        }),
        counted(target.msg_counter, target.sysdata_fields) == target.after_packets().msg_counter,
{
}

/// A target that was created: disabled, with the configuration it was given, and with nothing
/// counted or attached.
pub proof fn law_new_target(target: NetconsoleTarget, cfg: ParsedConfig)
    requires
        target.fresh(cfg@),
    ensures
        !target.enabled,
        target.netpoll is None,
        target.config.extended == cfg.extended,
        target.config.release == cfg.release,
        target.config.dev_name@ == cfg.dev_name@,
        target.config.local_port == cfg.local_port,
        target.config.remote_port == cfg.remote_port,
        target.config.local_ip@ == cfg.local_ip@,
        target.config.remote_ip@ == cfg.remote_ip@,
        target.config.remote_mac.0@ == cfg.remote_mac.0@,
        target.xmit_errors == 0,
        target.userdata_cache@.len() == 0,
        target.sysdata_fields == 0,
        target.msg_counter == 0,
        target.userdata@.len() == 0,
{
    law_config_is_fieldwise(target.config);
    law_parsed_config_is_fieldwise(cfg);
}

/// What a configuration is set up with: every parameter is the configured one, and the address
/// family is that of the remote address. A device name can be set up where there is a NUL in its
/// buffer.
pub proof fn law_setup_uses_the_configuration(cfg: TargetConfig, n: int)
    requires
        cfg.dev_name.len() == 16,
        0 <= n <= 16,
        forall|i: int| 0 <= i < n ==> #[trigger] cfg.dev_name[i] != 0,
        n < 16 ==> cfg.dev_name[n] == 0,
    ensures
        params_of(cfg).name == ascii("netconsole"@),
        params_of(cfg).dev_name.len() == 16,
        forall|i: int|
            0 <= i < 16 ==> #[trigger] params_of(cfg).dev_name[i] == (if i < n {
                cfg.dev_name[i]
            } else {
                0
            }),
        params_of(cfg).local_port == cfg.local_port,
        params_of(cfg).remote_port == cfg.remote_port,
        params_of(cfg).ipv6 == (cfg.remote_ip is V6),
        params_of(cfg).local_ip == cfg.local_ip.inet_bytes(),
        params_of(cfg).remote_ip == cfg.remote_ip.inet_bytes(),
        params_of(cfg).remote_mac == cfg.remote_mac,
        has_device(cfg) <==> n < 16,
{
    lemma_until_unique(cfg.dev_name, 0, n);
    law_dev_name_buffer_is_bytewise(cfg.dev_name.take(n));
    assert(c_text(cfg.dev_name) =~= cfg.dev_name.take(n));
    assert forall|i: int| 0 <= i < 16 implies #[trigger] params_of(cfg).dev_name[i] == (if i < n {
        cfg.dev_name[i]
    } else {
        0
    }) by {
        assert(dev_name_buffer(cfg.dev_name.take(n))[i] == (if i < n {
            cfg.dev_name.take(n)[i]
        } else {
            0
        }));
    }
}

/// A target is well formed exactly where its entries and its cache are, and where it has a netpoll
/// instance that is set up while it is enabled, and none while it is not.
pub proof fn law_well_formed_target(target: NetconsoleTarget)
    ensures
        target.wf() <==> {
            &&& target.userdata.wf()
            &&& target.userdata_cache.wf()
            &&& target.enabled ==> (target.netpoll matches Some(np) && np.enabled())
            &&& !target.enabled ==> target.netpoll is None
        },
{
}

/// A failure of the message is counted and changes nothing else; without one nothing changes.
pub proof fn law_results_change_the_count_only(
    target: NetconsoleTarget,
    results: Seq<Result<i32, Error>>,
)
    requires
        target.xmit_errors < u64::MAX,
    ensures
        results.len() > 0 && results[0] is Err ==> target.after_results(results)
            == (NetconsoleTarget { xmit_errors: (target.xmit_errors + 1) as u64, ..target }),
        results.len() == 0 || results[0] is Ok ==> target.after_results(results) == target,
        message_failed(results) <==> results.len() > 0 && results[0] is Err,
{
}

/// A message number is one more than the last where the bit for it is set, and zero behind the
/// greatest; where the bit is not set it stays.
pub proof fn law_numbers_count_up(counter: u32, fields: u32)
    ensures
        fields & 8 != 0 ==> counted(counter, fields) == (counter as int + 1) % 0x1_0000_0000,
        fields & 8 == 0 ==> counted(counter, fields) == counter,
{
}

} // verus!
