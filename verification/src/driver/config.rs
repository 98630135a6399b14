//! The configuration of a target.
use vstd::prelude::*;
use crate::bytes::{ascii, ascii_bytes, copy_into, overlay};
use crate::net::ip::{IpAddr, IpValue};
use crate::net::mac::MacAddr;
use crate::net::netpoll::{DEFAULT_LOCAL_PORT, DEFAULT_REMOTE_PORT, IFNAMSIZ};

verus! {

/// The configuration of a target as a mathematical value.
pub struct TargetConfig {
    pub extended: bool,
    pub release: bool,
    pub dev_name: Seq<u8>,
    pub local_port: u16,
    pub remote_port: u16,
    pub local_ip: IpValue,
    pub remote_ip: IpValue,
    pub remote_mac: Seq<u8>,
}

/// A device name buffer that holds `name`, and NULs behind it.
pub open spec fn dev_name_buffer(name: Seq<u8>) -> Seq<u8> {
    overlay(Seq::new(IFNAMSIZ as nat, |i: int| 0u8), name)
}

/// As much of a device name as leaves room for a NUL.
pub open spec fn clipped(name: Seq<u8>) -> Seq<u8> {
    if name.len() < IFNAMSIZ {
        name
    } else {
        name.take(IFNAMSIZ - 1)
    }
}

/// The configuration of a target that nothing has been said of.
pub open spec fn default_config() -> TargetConfig {
    TargetConfig {
        extended: false,
        release: false,
        dev_name: dev_name_buffer(ascii("eth0"@)),
        local_port: DEFAULT_LOCAL_PORT,
        remote_port: DEFAULT_REMOTE_PORT,
        local_ip: IpValue::unspecified(),
        remote_ip: IpValue::unspecified(),
        remote_mac: Seq::new(6, |i: int| 0xffu8),
    }
}

/// A device name buffer that holds as much of `name` as leaves room for a NUL.
pub fn fill_dev_name(name: &[u8]) -> (buf: [u8; IFNAMSIZ])
    ensures
        buf@ == dev_name_buffer(clipped(name@)),
{
    let len: usize = if name.len() < IFNAMSIZ {
        name.len()
    } else {
        IFNAMSIZ - 1
    };
    let mut buf: [u8; IFNAMSIZ] = [0u8; IFNAMSIZ];
    assert(buf@ =~= Seq::new(IFNAMSIZ as nat, |i: int| 0u8));
    assert(name@.subrange(0, len as int) =~= clipped(name@));
    copy_into(&mut buf, &name[0..len]);
    buf
}

/// The device name that is used where none is configured.
pub fn default_dev_name() -> (buf: [u8; IFNAMSIZ])
    ensures
        buf@ == dev_name_buffer(ascii("eth0"@)),
{
    proof {
        reveal_strlit("eth0");
    }
    fill_dev_name(ascii_bytes("eth0"))
}

/// The configuration of a target.
#[derive(Clone, Copy, Debug, PartialEq, Eq)]
pub struct ConfigState {
    /// Whether to use the extended log format.
    pub extended: bool,
    /// Whether to prepend the kernel release.
    pub release: bool,
    /// Device name.
    pub dev_name: [u8; IFNAMSIZ],
    /// Local port.
    pub local_port: u16,
    /// Remote port.
    pub remote_port: u16,
    /// Local IP address.
    pub local_ip: IpAddr,
    /// Remote IP address.
    pub remote_ip: IpAddr,
    /// Remote MAC address.
    pub remote_mac: MacAddr,
}

impl View for ConfigState {
    type V = TargetConfig;

    open spec fn view(&self) -> TargetConfig {
        TargetConfig {
            extended: self.extended,
            release: self.release,
            dev_name: self.dev_name@,
            local_port: self.local_port,
            remote_port: self.remote_port,
            local_ip: self.local_ip@,
            remote_ip: self.remote_ip@,
            remote_mac: self.remote_mac@,
        }
    }
}

/// A device name buffer holds the name and NULs behind it; of a name that is too long, the first
/// fifteen bytes are kept.
pub proof fn law_dev_name_buffer_is_bytewise(name: Seq<u8>)
    ensures
        clipped(name).len() <= 15,
        clipped(name).len() == name.len() || (clipped(name).len() == 15 && name.len() > 15),
        forall|i: int| 0 <= i < clipped(name).len() ==> #[trigger] clipped(name)[i] == name[i],
        name.len() <= 16 ==> dev_name_buffer(name).len() == 16,
        name.len() <= 16 ==> forall|i: int|
            0 <= i < 16 ==> #[trigger] dev_name_buffer(name)[i] == (if i < name.len() {
                name[i]
            } else {
                0
            }),
{
}

/// The configuration that nothing has been said of.
pub proof fn law_default_configuration()
    ensures
        !default_config().extended,
        !default_config().release,
        default_config().dev_name =~= seq![
            101u8, 116u8, 104u8, 48u8, 0u8, 0u8, 0u8, 0u8, 0u8, 0u8, 0u8, 0u8, 0u8, 0u8, 0u8, 0u8,
        ],
        default_config().local_port == 6665,
        default_config().remote_port == 6666,
        default_config().local_ip == IpValue::unspecified(),
        default_config().remote_ip == IpValue::unspecified(),
        default_config().remote_mac =~= seq![255u8, 255u8, 255u8, 255u8, 255u8, 255u8],
{
    reveal_strlit("eth0");
}

/// A configuration stands for the values of its fields.
pub proof fn law_config_is_fieldwise(cfg: ConfigState)
    ensures
        cfg@.extended == cfg.extended,
        cfg@.release == cfg.release,
        cfg@.dev_name == cfg.dev_name@,
        cfg@.local_port == cfg.local_port,
        cfg@.remote_port == cfg.remote_port,
        cfg@.local_ip == cfg.local_ip@,
        cfg@.remote_ip == cfg.remote_ip@,
        cfg@.remote_mac == cfg.remote_mac.0@,
{
}

} // verus!
