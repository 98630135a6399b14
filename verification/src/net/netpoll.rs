//! Netpoll: UDP transmission for console output.
//!
//! Setting up a device and sending a packet are done by functions that the caller passes in.
//! What they are called on, and what becomes of their answers, is decided here.
use vstd::prelude::*;
use crate::bytes::{
    ascii,
    c_text,
    copy_into,
    lemma_until,
    lemma_until_unique,
    lines_view,
    overlay,
    strlen,
    until,
};
use crate::cstr::{no_nul, CStr};
use crate::error::{result_of, to_result, Error, EINVAL, ENODEV};
use crate::net::ip::{IpAddr, IpValue, Ipv4Addr, Ipv6Addr};
use crate::net::mac::MacAddr;

verus! {

/// Size of a device name buffer, the terminating NUL included.
pub const IFNAMSIZ: usize = 16;

/// The port that packets are sent from unless another one is configured.
pub const DEFAULT_LOCAL_PORT: u16 = 6665;

/// The port that packets are sent to unless another one is configured.
pub const DEFAULT_REMOTE_PORT: u16 = 6666;

/// The parameters of a netpoll instance, as device setup and transmission get them.
#[derive(Debug)]
pub struct NetpollRecord {
    pub name: CStr,
    pub dev_name: [u8; IFNAMSIZ],
    pub local_port: u16,
    pub remote_port: u16,
    pub ipv6: bool,
    /// Room for an address of either family.
    pub local_ip: [u8; 16],
    /// Room for an address of either family.
    pub remote_ip: [u8; 16],
    pub remote_mac: [u8; 6],
}

/// The parameters of a netpoll instance as mathematical values.
pub struct NetpollParams {
    pub name: Seq<u8>,
    pub dev_name: Seq<u8>,
    pub local_port: u16,
    pub remote_port: u16,
    pub ipv6: bool,
    pub local_ip: Seq<u8>,
    pub remote_ip: Seq<u8>,
    pub remote_mac: Seq<u8>,
}

impl View for NetpollRecord {
    type V = NetpollParams;

    open spec fn view(&self) -> NetpollParams {
        NetpollParams {
            name: self.name@,
            dev_name: self.dev_name@,
            local_port: self.local_port,
            remote_port: self.remote_port,
            ipv6: self.ipv6,
            local_ip: self.local_ip@,
            remote_ip: self.remote_ip@,
            remote_mac: self.remote_mac@,
        }
    }
}

/// A netpoll instance for UDP transmission. It is enabled once device setup has succeeded on
/// its parameters.
#[derive(Debug)]
pub struct Netpoll {
    inner: NetpollRecord,
    enabled: bool,
}

/// What the return code of a transmission says: a negative one is an error, any other is handed
/// on.
pub open spec fn send_result_of(code: i32) -> Result<i32, Error> {
    if code < 0 {
        Err(Error::of_errno(code))
    } else {
        Ok(code)
    }
}

/// Turns the return code of a transmission into a result.
pub fn send_result(code: i32) -> (r: Result<i32, Error>)
    ensures
        r == send_result_of(code),
{
    if code < 0 {
        Err(Error::from_errno(code))
    } else {
        Ok(code)
    }
}

impl Netpoll {
    /// The parameters that the instance was built with.
    pub closed spec fn record(self) -> NetpollRecord {
        self.inner
    }

    /// Device setup has succeeded.
    pub closed spec fn enabled(self) -> bool {
        self.enabled
    }

    /// Creates a builder for a netpoll instance.
    pub fn builder() -> (b: NetpollBuilder)
        ensures
            b@.is_initial(),
    {
        NetpollBuilder::new()
    }

    /// The instance after device setup was run on `record` and returned `code`.
    pub fn from_setup(record: NetpollRecord, code: i32) -> (r: Result<Netpoll, Error>)
        ensures
            match result_of(code) {
                Ok(_) => r matches Ok(np) && np.record() == record && np.enabled(),
                Err(e) => r == Err::<Netpoll, Error>(e),
            },
    {
        match to_result(code) {
            Ok(_) => Ok(Netpoll { inner: record, enabled: true }),
            Err(e) => Err(e),
        }
    }

    /// Sends a message. `netpoll_send_udp` gets the parameters, the message and its length, and
    /// returns a code; it is called only where the instance is enabled.
    pub fn send_udp<F: FnOnce(&NetpollRecord, &[u8], i32) -> i32>(
        &self,
        msg: &[u8],
        netpoll_send_udp: F,
    ) -> (r: Result<i32, Error>)
        requires
            self.enabled() ==> call_requires(
                netpoll_send_udp,
                (&self.record(), msg, msg@.len() as i32),
            ),
        ensures
            !self.enabled() ==> r == Err::<i32, Error>(Error(ENODEV)),
            self.enabled() ==> exists|code: i32| #[trigger]
                call_ensures(netpoll_send_udp, (&self.record(), msg, msg@.len() as i32), code) && r
                    == send_result_of(code),
    {
        if !self.enabled {
            return Err(Error(ENODEV));
        }
        let code: i32 = netpoll_send_udp(&self.inner, msg, #[verifier::truncate] (msg.len() as i32));
        send_result(code)
    }

    /// One message is sent, by one call where the instance is enabled and by none where it is not.
    /// The call takes the sender from one state to the next.
    pub open spec fn sent<S, F: Fn(S, &NetpollRecord, &[u8], i32) -> (S, i32)>(
        self,
        msg: Seq<u8>,
        netpoll_send_udp: F,
        before: S,
        after: S,
        r: Result<i32, Error>,
    ) -> bool {
        if self.enabled() {
            exists|bytes: &[u8], len: i32, out: (S, i32)| #[trigger]
                call_ensures(netpoll_send_udp, (before, &self.record(), bytes, len), out) && bytes@
                    == msg && len == msg.len() as i32 && after == out.0 && r == send_result_of(
                    out.1,
                )
        } else {
            after == before && r == Err::<i32, Error>(Error(ENODEV))
        }
    }

    /// Messages are sent in their order, each of them once. `states` are those of the sender, from
    /// before the first message to behind the last.
    pub open spec fn sent_in_turn<S, F: Fn(S, &NetpollRecord, &[u8], i32) -> (S, i32)>(
        self,
        msgs: Seq<Seq<u8>>,
        netpoll_send_udp: F,
        states: Seq<S>,
        results: Seq<Result<i32, Error>>,
    ) -> bool {
        &&& states.len() == msgs.len() + 1
        &&& results.len() == msgs.len()
        &&& forall|i: int|
            0 <= i < msgs.len() ==> self.sent(
                msgs[i],
                netpoll_send_udp,
                states[i],
                states[i + 1],
                #[trigger] results[i],
            )
    }

    /// Sends messages one after the other, each of them once and whatever became of those before
    /// it. `netpoll_send_udp` gets a state of its own, the parameters, the message and its length;
    /// it returns its next state and a code.
    pub fn send_in_turn<S, F: Fn(S, &NetpollRecord, &[u8], i32) -> (S, i32)>(
        &self,
        msgs: &Vec<Vec<u8>>,
        start: S,
        netpoll_send_udp: F,
    ) -> (out: (S, Vec<Result<i32, Error>>))
        requires
            self.enabled() ==> forall|state: S, msg: &[u8], len: i32|
                len == msg@.len() as i32 ==> #[trigger] call_requires(
                    netpoll_send_udp,
                    (state, &self.record(), msg, len),
                ),
        ensures
            exists|states: Seq<S>| #[trigger]
                self.sent_in_turn(lines_view(msgs@), netpoll_send_udp, states, out.1@) && states[0]
                    == start && states.last() == out.0,
    {
        let mut state: S = start;
        let ghost mut states: Seq<S> = seq![start];
        let mut results: Vec<Result<i32, Error>> = Vec::new();
        let mut i: usize = 0;
        while i < msgs.len()
            invariant
                self.enabled() ==> forall|state: S, msg: &[u8], len: i32|
                    len == msg@.len() as i32 ==> #[trigger] call_requires(
                        netpoll_send_udp,
                        (state, &self.record(), msg, len),
                    ),
                i <= msgs@.len(),
                results@.len() == i,
                states.len() == i + 1,
                states[0] == start,
                states[i as int] == state,
                forall|j: int|
                    0 <= j < i ==> self.sent(
                        msgs@[j]@,
                        netpoll_send_udp,
                        states[j],
                        states[j + 1],
                        #[trigger] results@[j],
                    ),
            decreases msgs@.len() - i,
        {
            let msg = msgs[i].as_slice();
            assert(self.inner == self.record());
            assert(msg@ == msgs@[i as int]@);
            let ghost before = state;
            let ghost earlier = states;
            let r: Result<i32, Error>;
            if self.enabled {
                let len: i32 = #[verifier::truncate] (msg.len() as i32);
                assert(call_requires(netpoll_send_udp, (state, &self.record(), msg, len)));
                let out: (S, i32) = netpoll_send_udp(state, &self.inner, msg, len);
                assert(call_ensures(netpoll_send_udp, (before, &self.record(), msg, len), out));
                state = out.0;
                r = send_result(out.1);
            } else {
                r = Err(Error(ENODEV));
            }
            assert(self.sent(msgs@[i as int]@, netpoll_send_udp, before, state, r));
            results.push(r);
            proof {
                states = states.push(state);
                assert forall|j: int| 0 <= j < i + 1 implies self.sent(
                    msgs@[j]@,
                    netpoll_send_udp,
                    states[j],
                    states[j + 1],
                    #[trigger] results@[j],
                ) by {
                    assert(states[j] == earlier[j]);
                    if j < i {
                        assert(states[j + 1] == earlier[j + 1]);
                    }
                }
            }
            i += 1;
        }
        let out: (S, Vec<Result<i32, Error>>) = (state, results);
        assert(states[0] == start && states.last() == out.0);
        assert(self.sent_in_turn(lines_view(msgs@), netpoll_send_udp, states, out.1@));
        out
    }

    /// The device name.
    pub fn dev_name(&self) -> (name: &[u8])
        ensures
            name@ == c_text(self.record()@.dev_name),
    {
        let len: usize = strlen(&self.inner.dev_name);
        assert(self.inner.dev_name@.subrange(0, len as int) =~= c_text(self.inner.dev_name@));
        &self.inner.dev_name[0..len]
    }

    /// The local port number.
    pub fn local_port(&self) -> (port: u16)
        ensures
            port == self.record()@.local_port,
    {
        self.inner.local_port
    }

    /// The remote port number.
    pub fn remote_port(&self) -> (port: u16)
        ensures
            port == self.record()@.remote_port,
    {
        self.inner.remote_port
    }

    /// Whether the instance uses IPv6.
    pub fn is_ipv6(&self) -> (r: bool)
        ensures
            r == self.record()@.ipv6,
    {
        self.inner.ipv6
    }

    /// Whether the instance is enabled.
    pub fn is_enabled(&self) -> (r: bool)
        ensures
            r == self.enabled(),
    {
        self.enabled
    }

    /// Gives the instance up: the parameters to clean up with, where it is enabled.
    pub fn cleanup(self) -> (r: Option<NetpollRecord>)
        ensures
            r == (if self.enabled() {
                Some(self.record())
            } else {
                None
            }),
    {
        if self.enabled {
            Some(self.inner)
        } else {
            None
        }
    }

    /// The parameters of the instance.
    pub fn as_ptr(&self) -> (r: &NetpollRecord)
        ensures
            *r == self.record(),
    {
        &self.inner
    }
}

/// Builder for a [`Netpoll`] instance. Its device name buffer always holds a NUL.
#[derive(Debug)]
pub struct NetpollBuilder {
    name: Option<CStr>,
    dev_name: [u8; IFNAMSIZ],
    local_port: u16,
    remote_port: u16,
    local_ip: IpAddr,
    remote_ip: IpAddr,
    remote_mac: MacAddr,
    ipv6: bool,
}

/// What has been configured on a builder.
pub struct BuilderState {
    pub name: Option<Seq<u8>>,
    pub dev_name: Seq<u8>,
    pub local_port: u16,
    pub remote_port: u16,
    pub local_ip: IpValue,
    pub remote_ip: IpValue,
    pub remote_mac: Seq<u8>,
    pub ipv6: bool,
}

impl BuilderState {
    /// Nothing has been configured yet.
    pub open spec fn is_initial(self) -> bool {
        &&& self.name is None
        &&& self.dev_name == Seq::new(IFNAMSIZ as nat, |i: int| 0u8)
        &&& self.local_port == DEFAULT_LOCAL_PORT
        &&& self.remote_port == DEFAULT_REMOTE_PORT
        &&& self.local_ip == IpValue::unspecified()
        &&& self.remote_ip == IpValue::unspecified()
        &&& self.remote_mac == Seq::new(6, |i: int| 0xffu8)
        &&& !self.ipv6
    }

    /// The device name buffer has its size and holds a NUL.
    pub open spec fn terminated(self) -> bool {
        &&& self.dev_name.len() == IFNAMSIZ
        &&& until(self.dev_name, 0) < IFNAMSIZ
    }

    /// A device name is written over the buffer, with a NUL behind it.
    pub open spec fn with_dev_name(self, name: Seq<u8>) -> BuilderState {
        BuilderState { dev_name: overlay(self.dev_name, name.push(0u8)), ..self }
    }

    /// The local address is set, and the address family with it.
    pub open spec fn with_local_ip(self, addr: IpValue) -> BuilderState {
        BuilderState { local_ip: addr, ipv6: addr is V6, ..self }
    }

    /// The remote address is set, and the address family with it.
    pub open spec fn with_remote_ip(self, addr: IpValue) -> BuilderState {
        BuilderState { remote_ip: addr, ipv6: addr is V6, ..self }
    }

    /// The parameters that the configuration stands for.
    pub open spec fn params(self) -> NetpollParams {
        NetpollParams {
            name: match self.name {
                Some(name) => name,
                None => ascii("netconsole"@),
            },
            dev_name: self.dev_name,
            local_port: self.local_port,
            remote_port: self.remote_port,
            ipv6: self.ipv6,
            local_ip: self.local_ip.inet_bytes(),
            remote_ip: self.remote_ip.inet_bytes(),
            remote_mac: self.remote_mac,
        }
    }
}

/// A device name without a NUL that fits reads back as it was set, whatever was there before.
pub proof fn law_dev_name_read_back(b: BuilderState, name: Seq<u8>)
    requires
        b.dev_name.len() == IFNAMSIZ,
        name.len() < IFNAMSIZ,
        no_nul(name),
    ensures
        c_text(b.with_dev_name(name).params().dev_name) == name,
{
    let buf = b.with_dev_name(name).dev_name;
    assert forall|i: int| 0 <= i < name.len() implies #[trigger] buf[i] != 0 by {
        assert(buf[i] == name[i]);
    }
    lemma_until_unique(buf, 0, name.len() as int);
    assert(c_text(buf) =~= name);
}

/// The address family is that of the address that was set last, and each address is kept.
pub proof fn law_family_of_last_address(b: BuilderState, local: IpValue, remote: IpValue)
    ensures
        b.with_local_ip(local).with_remote_ip(remote).params().ipv6 == (remote is V6),
        b.with_remote_ip(remote).with_local_ip(local).params().ipv6 == (local is V6),
        b.with_local_ip(local).with_remote_ip(remote).params().local_ip == local.inet_bytes(),
        b.with_local_ip(local).with_remote_ip(remote).params().remote_ip == remote.inet_bytes(),
        b.with_remote_ip(remote).with_local_ip(local).params().local_ip == local.inet_bytes(),
        b.with_remote_ip(remote).with_local_ip(local).params().remote_ip == remote.inet_bytes(),
{
}

/// Where a name fits, the buffer stays terminated.
proof fn lemma_with_dev_name_terminated(b: BuilderState, name: Seq<u8>)
    requires
        b.dev_name.len() == IFNAMSIZ,
        name.len() < IFNAMSIZ,
    ensures
        b.with_dev_name(name).terminated(),
{
    let buf = b.with_dev_name(name).dev_name;
    lemma_until(buf, 0);
    assert(buf[name.len() as int] == 0);
}

impl View for NetpollBuilder {
    type V = BuilderState;

    closed spec fn view(&self) -> BuilderState {
        BuilderState {
            name: match self.name {
                Some(name) => Some(name@),
                None => None,
            },
            dev_name: self.dev_name@,
            local_port: self.local_port,
            remote_port: self.remote_port,
            local_ip: self.local_ip@,
            remote_ip: self.remote_ip@,
            remote_mac: self.remote_mac@,
            ipv6: self.ipv6,
        }
    }
}

impl NetpollBuilder {
    #[verifier::type_invariant]
    spec fn inv(self) -> bool {
        self@.terminated()
    }

    /// Creates a builder with default values.
    pub fn new() -> (b: NetpollBuilder)
        ensures
            b@.is_initial(),
    {
        let dev_name: [u8; IFNAMSIZ] = [0u8; IFNAMSIZ];
        assert(dev_name@ =~= Seq::new(IFNAMSIZ as nat, |i: int| 0u8));
        proof {
            lemma_until_unique(dev_name@, 0, 0);
        }
        NetpollBuilder {
            name: None,
            dev_name,
            local_port: DEFAULT_LOCAL_PORT,
            remote_port: DEFAULT_REMOTE_PORT,
            local_ip: IpAddr::V4(Ipv4Addr::unspecified()),
            remote_ip: IpAddr::V4(Ipv4Addr::unspecified()),
            remote_mac: MacAddr::broadcast(),
            ipv6: false,
        }
    }

    /// Sets the name of the instance.
    pub fn name(self, name: CStr) -> (b: NetpollBuilder)
        ensures
            b@ == (BuilderState { name: Some(name@), ..self@ }),
    {
        proof {
            use_type_invariant(&self);
        }
        NetpollBuilder { name: Some(name), ..self }
    }

    /// Sets the device name from a C string.
    pub fn dev_name(self, name: &CStr) -> (r: Result<NetpollBuilder, Error>)
        ensures
            name@.len() < IFNAMSIZ ==> (r matches Ok(b) && b@ == self@.with_dev_name(name@)),
            name@.len() >= IFNAMSIZ ==> r == Err::<NetpollBuilder, Error>(Error(EINVAL)),
    {
        self.dev_name_bytes(name.to_bytes())
    }

    /// Sets the device name from bytes.
    pub fn dev_name_bytes(self, name: &[u8]) -> (r: Result<NetpollBuilder, Error>)
        ensures
            name@.len() < IFNAMSIZ ==> (r matches Ok(b) && b@ == self@.with_dev_name(name@)),
            name@.len() >= IFNAMSIZ ==> r == Err::<NetpollBuilder, Error>(Error(EINVAL)),
    {
        proof {
            use_type_invariant(&self);
        }
        if name.len() >= IFNAMSIZ {
            return Err(Error(EINVAL));
        }
        let mut dev_name: [u8; IFNAMSIZ] = self.dev_name;
        copy_into(&mut dev_name, name);
        dev_name[name.len()] = 0;
        assert(dev_name@ =~= overlay(self.dev_name@, name@.push(0u8)));
        proof {
            lemma_with_dev_name_terminated(self@, name@);
        }
        Ok(NetpollBuilder { dev_name, ..self })
    }

    /// Sets the local port number.
    pub fn local_port(self, port: u16) -> (b: NetpollBuilder)
        ensures
            b@ == (BuilderState { local_port: port, ..self@ }),
    {
        proof {
            use_type_invariant(&self);
        }
        NetpollBuilder { local_port: port, ..self }
    }

    /// Sets the remote port number.
    pub fn remote_port(self, port: u16) -> (b: NetpollBuilder)
        ensures
            b@ == (BuilderState { remote_port: port, ..self@ }),
    {
        proof {
            use_type_invariant(&self);
        }
        NetpollBuilder { remote_port: port, ..self }
    }

    /// Sets the local IP address.
    pub fn local_ip(self, addr: IpAddr) -> (b: NetpollBuilder)
        ensures
            b@ == self@.with_local_ip(addr@),
    {
        match addr {
            IpAddr::V4(a) => self.local_ip_v4(a),
            IpAddr::V6(a) => self.local_ip_v6(a),
        }
    }

    /// Sets the local IPv4 address.
    pub fn local_ip_v4(self, addr: Ipv4Addr) -> (b: NetpollBuilder)
        ensures
            b@ == self@.with_local_ip(IpValue::V4(addr.0@)),
    {
        proof {
            use_type_invariant(&self);
        }
        NetpollBuilder { local_ip: IpAddr::V4(addr), ipv6: false, ..self }
    }

    /// Sets the local IPv6 address.
    pub fn local_ip_v6(self, addr: Ipv6Addr) -> (b: NetpollBuilder)
        ensures
            b@ == self@.with_local_ip(IpValue::V6(addr.0@)),
    {
        proof {
            use_type_invariant(&self);
        }
        NetpollBuilder { local_ip: IpAddr::V6(addr), ipv6: true, ..self }
    }

    /// Sets the remote IP address.
    pub fn remote_ip(self, addr: IpAddr) -> (b: NetpollBuilder)
        ensures
            b@ == self@.with_remote_ip(addr@),
    {
        match addr {
            IpAddr::V4(a) => self.remote_ip_v4(a),
            IpAddr::V6(a) => self.remote_ip_v6(a),
        }
    }

    /// Sets the remote IPv4 address.
    pub fn remote_ip_v4(self, addr: Ipv4Addr) -> (b: NetpollBuilder)
        ensures
            b@ == self@.with_remote_ip(IpValue::V4(addr.0@)),
    {
        proof {
            use_type_invariant(&self);
        }
        NetpollBuilder { remote_ip: IpAddr::V4(addr), ipv6: false, ..self }
    }

    /// Sets the remote IPv6 address.
    pub fn remote_ip_v6(self, addr: Ipv6Addr) -> (b: NetpollBuilder)
        ensures
            b@ == self@.with_remote_ip(IpValue::V6(addr.0@)),
    {
        proof {
            use_type_invariant(&self);
        }
        NetpollBuilder { remote_ip: IpAddr::V6(addr), ipv6: true, ..self }
    }

    /// Sets the remote MAC address.
    pub fn remote_mac(self, mac: MacAddr) -> (b: NetpollBuilder)
        ensures
            b@ == (BuilderState { remote_mac: mac@, ..self@ }),
    {
        proof {
            use_type_invariant(&self);
        }
        NetpollBuilder { remote_mac: mac, ..self }
    }

    /// The parameters that have been configured.
    pub fn record(self) -> (rec: NetpollRecord)
        ensures
            rec@ == self@.params(),
            self@.terminated(),
    {
        proof {
            use_type_invariant(&self);
        }
        let name: CStr = match self.name {
            Some(name) => name,
            None => netconsole_name(),
        };
        NetpollRecord {
            name,
            dev_name: self.dev_name,
            local_port: self.local_port,
            remote_port: self.remote_port,
            ipv6: self.ipv6,
            local_ip: self.local_ip.to_inet_bytes(),
            remote_ip: self.remote_ip.to_inet_bytes(),
            remote_mac: self.remote_mac.0,
        }
    }

    /// Builds the instance and sets it up. `netpoll_setup` gets the configured parameters; it
    /// returns them, with what setup has filled in, and a code.
    pub fn setup<F: FnOnce(NetpollRecord) -> (NetpollRecord, i32)>(
        self,
        netpoll_setup: F,
    ) -> (r: Result<Netpoll, Error>)
        requires
            forall|rec: NetpollRecord| #[trigger]
                rec@ == self@.params() ==> call_requires(netpoll_setup, (rec,)),
        ensures
            self@.terminated(),
            exists|rec: NetpollRecord, out: (NetpollRecord, i32)| #[trigger]
                call_ensures(netpoll_setup, (rec,), out) && rec@ == self@.params() && (
                match result_of(out.1) {
                    Ok(_) => r matches Ok(np) && np.record() == out.0 && np.enabled(),
                    Err(e) => r == Err::<Netpoll, Error>(e),
                }),
    {
        let rec: NetpollRecord = self.record();
        let out: (NetpollRecord, i32) = netpoll_setup(rec);
        Netpoll::from_setup(out.0, out.1)
    }

    /// Builds the instance without setting it up. It stays disabled.
    pub fn build_uninitialized(self) -> (np: Netpoll)
        ensures
            np.record()@ == self@.params(),
            self@.terminated(),
            !np.enabled(),
    {
        Netpoll { inner: self.record(), enabled: false }
    }
}

/// The name of an instance that was given none.
pub fn netconsole_name() -> (name: CStr)
    ensures
        name@ == ascii("netconsole"@),
{
    proof {
        reveal_strlit("netconsole");
    }
    CStr::from_ascii("netconsole")
}

impl Default for NetpollBuilder {
    fn default() -> (b: NetpollBuilder)
        ensures
            b@.is_initial(),
    {
        NetpollBuilder::new()
    }
}

/// What each setting of a builder changes: a device name is written with a NUL behind it and keeps
/// the bytes behind that; an address sets the family; nothing else changes.
pub proof fn law_builder_settings(b: BuilderState, name: Seq<u8>, addr: IpValue)
    requires
        b.dev_name.len() == 16,
        name.len() < 16,
    ensures
        b.with_dev_name(name).dev_name.len() == 16,
        forall|i: int|
            0 <= i < 16 ==> #[trigger] b.with_dev_name(name).dev_name[i] == (if i < name.len() {
                name[i]
            } else if i == name.len() {
                0
            } else {
                b.dev_name[i]
            }),
        b.with_dev_name(name) == (BuilderState {
            dev_name: b.with_dev_name(name).dev_name,
            ..b
        }),
        b.with_local_ip(addr) == (BuilderState { local_ip: addr, ipv6: addr is V6, ..b }),
        b.with_remote_ip(addr) == (BuilderState { remote_ip: addr, ipv6: addr is V6, ..b }),
{
}

/// The parameters are what was set, each from its own setting; the name stands for itself where
/// there is one.
pub proof fn law_params_are_the_settings(b: BuilderState)
    ensures
        b.params().name == (match b.name {
            Some(name) => name,
            None => ascii("netconsole"@),
        }),
        b.params().dev_name == b.dev_name,
        b.params().local_port == b.local_port,
        b.params().remote_port == b.remote_port,
        b.params().ipv6 == b.ipv6,
        b.params().local_ip == b.local_ip.inet_bytes(),
        b.params().remote_ip == b.remote_ip.inet_bytes(),
        b.params().remote_mac == b.remote_mac,
{
}

/// A builder on which nothing was set.
pub proof fn law_initial_settings(b: BuilderState)
    requires
        b.is_initial(),
    ensures
        b.name is None,
        b.dev_name.len() == 16,
        forall|i: int| 0 <= i < 16 ==> #[trigger] b.dev_name[i] == 0,
        b.local_port == 6665,
        b.remote_port == 6666,
        b.local_ip == IpValue::unspecified(),
        b.remote_ip == IpValue::unspecified(),
        b.remote_mac.len() == 6,
        forall|i: int| 0 <= i < 6 ==> #[trigger] b.remote_mac[i] == 255,
        !b.ipv6,
{
}

/// A record stands for the values of its fields.
pub proof fn law_record_is_fieldwise(rec: NetpollRecord)
    ensures
        rec@.name == rec.name@,
        rec@.dev_name == rec.dev_name@,
        rec@.local_port == rec.local_port,
        rec@.remote_port == rec.remote_port,
        rec@.ipv6 == rec.ipv6,
        rec@.local_ip == rec.local_ip@,
        rec@.remote_ip == rec.remote_ip@,
        rec@.remote_mac == rec.remote_mac@,
{
}

/// A code of a transmission that is not negative is handed on as it is; a negative one is an error,
/// held as it is from -4095 on and as -22 below.
pub proof fn law_send_code_is_kept(code: i32)
    ensures
        code >= 0 ==> send_result_of(code) == Ok::<i32, Error>(code),
        -4095 <= code < 0 ==> send_result_of(code) == Err::<i32, Error>(Error(code)),
        code < -4095 ==> send_result_of(code) == Err::<i32, Error>(Error(-22i32)),
{
}

/// Messages that were sent in turn: there is one result for each. On an enabled instance each
/// message went out by one call, which took the sender from the state behind the message before to
/// the next, and the result is what its code says. A disabled instance called nobody.
pub proof fn law_each_message_is_sent_once<S, F: Fn(S, &NetpollRecord, &[u8], i32) -> (S, i32)>(
    np: Netpoll,
    msgs: Seq<Seq<u8>>,
    f: F,
    states: Seq<S>,
    results: Seq<Result<i32, Error>>,
    i: int,
)
    requires
        np.sent_in_turn(msgs, f, states, results),
        0 <= i < msgs.len(),
    ensures
        results.len() == msgs.len(),
        states.len() == msgs.len() + 1,
        np.enabled() ==> exists|bytes: &[u8], len: i32, code: i32| #[trigger]
            call_ensures(f, (states[i], &np.record(), bytes, len), (states[i + 1], code)) && bytes@
                == msgs[i] && len == msgs[i].len() as i32 && results[i] == send_result_of(code),
        !np.enabled() ==> states[i + 1] == states[i] && results[i] == Err::<i32, Error>(
            Error(-19i32),
        ),
{
    assert(np.sent(msgs[i], f, states[i], states[i + 1], results[i]));
    if np.enabled() {
        let (bytes, len, out) = choose|bytes: &[u8], len: i32, out: (S, i32)| #[trigger]
            call_ensures(f, (states[i], &np.record(), bytes, len), out) && bytes@ == msgs[i] && len
                == msgs[i].len() as i32 && states[i + 1] == out.0 && results[i] == send_result_of(
                out.1,
            );
        assert(out == (states[i + 1], out.1));
        assert(call_ensures(f, (states[i], &np.record(), bytes, len), (states[i + 1], out.1)));
    }
}

} // verus!
