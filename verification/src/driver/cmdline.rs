//! The command line format of a target:
//! `[+][r][src-port]@[src-ip]/[dev],[tgt-port]@<tgt-ip>/[tgt-macaddr]`.
use vstd::prelude::*;
use crate::bytes::{
    append_bytes,
    ascii,
    ascii_bytes,
    c_text,
    is_eol,
    law_trim_ignores_line_ends,
    lemma_until,
    lemma_until_unique,
    lines_view,
    position,
    strlen,
    to_vec,
    trim_newline,
    trimmed,
    until,
};
use crate::decimal::{
    decimal,
    format_u16,
    is_digit,
    law_u16_round_trip,
    lemma_decimal_value,
    read_u16,
    u16_text,
};
use crate::error::{Error, EINVAL};
use crate::net::ip::{IpAddr, IpValue};
use crate::net::mac::{hex_char, law_mac_round_trip, mac_of_text, text_of_mac, MacAddr};
use crate::net::netpoll::{DEFAULT_LOCAL_PORT, DEFAULT_REMOTE_PORT, IFNAMSIZ};
use crate::driver::config::{
    clipped,
    default_config,
    default_dev_name,
    dev_name_buffer,
    fill_dev_name,
    law_default_configuration,
    law_dev_name_buffer_is_bytewise,
    TargetConfig,
};
use crate::utf8::is_utf8;

verus! {

/// A target configuration that was given on the command line.
#[derive(Clone, Copy, Debug, PartialEq, Eq)]
pub struct ParsedConfig {
    pub extended: bool,
    pub release: bool,
    pub local_port: u16,
    pub remote_port: u16,
    pub dev_name: [u8; IFNAMSIZ],
    pub local_ip: IpAddr,
    pub remote_ip: IpAddr,
    pub remote_mac: MacAddr,
}

impl View for ParsedConfig {
    type V = TargetConfig;

    open spec fn view(&self) -> TargetConfig {
        TargetConfig {
            extended: self.extended,
            release: self.release,
            dev_name: self.dev_name@,
            local_port: self.local_port,
            remote_port: self.remote_port,
            local_ip: self.local_ip@,
            remote_ip: self.remote_ip@,
            remote_mac: self.remote_mac@,
        }
    }
}

impl ParsedConfig {
    /// The default configuration.
    pub fn new() -> (cfg: ParsedConfig)
        ensures
            cfg@ == default_config(),
    {
        ParsedConfig {
            extended: false,
            release: false,
            local_port: DEFAULT_LOCAL_PORT,
            remote_port: DEFAULT_REMOTE_PORT,
            dev_name: default_dev_name(),
            local_ip: IpAddr::default(),
            remote_ip: IpAddr::default(),
            remote_mac: MacAddr::broadcast(),
        }
    }
}

/// The parts of a command line, as text.
pub struct CmdlineText {
    pub extended: bool,
    pub release: bool,
    pub local_port: Seq<u8>,
    pub local_ip: Seq<u8>,
    pub dev_name: Seq<u8>,
    pub remote_port: Seq<u8>,
    pub remote_ip: Seq<u8>,
    pub remote_mac: Seq<u8>,
}

/// What stands in front of the first `c`, and what stands behind it.
pub open spec fn split_at_first(s: Seq<u8>, c: u8) -> Option<(Seq<u8>, Seq<u8>)> {
    let n = until(s, c);
    if n < s.len() {
        Some((s.take(n), s.skip(n + 1)))
    } else {
        None
    }
}

/// The text behind `c`, where it begins with `c`.
pub open spec fn without_prefix(s: Seq<u8>, c: u8) -> Seq<u8> {
    if s.len() > 0 && s[0] == c {
        s.skip(1)
    } else {
        s
    }
}

/// The parts of the text from the source port on.
pub open spec fn split_addresses(extended: bool, release: bool, s: Seq<u8>) -> Option<CmdlineText> {
    match split_at_first(s, '@' as u8) {
        None => None,
        Some((local_port, s)) => match split_at_first(s, '/' as u8) {
            None => None,
            Some((local_ip, s)) => match split_at_first(s, ',' as u8) {
                None => None,
                Some((dev_name, s)) => match split_at_first(s, '@' as u8) {
                    None => None,
                    Some((remote_port, s)) => match split_at_first(s, '/' as u8) {
                        None => None,
                        Some((remote_ip, remote_mac)) => Some(
                            CmdlineText {
                                extended,
                                release,
                                local_port,
                                local_ip,
                                dev_name,
                                remote_port,
                                remote_ip,
                                remote_mac,
                            },
                        ),
                    },
                },
            },
        },
    }
}

/// The parts of a command line. There are none where a delimiter is missing, or where the
/// release flag comes without the extended flag.
pub open spec fn split_cmdline(s: Seq<u8>) -> Option<CmdlineText> {
    let extended = s.len() > 0 && s[0] == '+' as u8;
    let s1 = without_prefix(s, '+' as u8);
    let release = s1.len() > 0 && s1[0] == 'r' as u8;
    let s2 = without_prefix(s1, 'r' as u8);
    if release && !extended {
        None
    } else {
        split_addresses(extended, release, s2)
    }
}

/// Why a command line is refused.
#[derive(Clone, Copy, Debug, PartialEq, Eq, Structural)]
pub enum CmdlineRefusal {
    /// The release flag comes without the extended flag.
    ReleaseNeedsExtended,
    /// There is no `@` behind the source port.
    NoSourceAt,
    /// There is no `/` behind the source address.
    NoSourceSlash,
    /// There is no `,` behind the device name.
    NoComma,
    /// There is no `@` behind the target port.
    NoTargetAt,
    /// There is no `/` behind the target address.
    NoTargetSlash,
    /// There is no target address, or its text is no address.
    NoTargetAddress,
}

impl CmdlineRefusal {
    /// What is said of a refusal.
    pub open spec fn text(self) -> Seq<char> {
        match self {
            CmdlineRefusal::ReleaseNeedsExtended =>
                "netconsole: release feature requires extended log message\n"@,
            CmdlineRefusal::NoSourceAt => "netconsole: couldn't parse config - missing '@'\n"@,
            CmdlineRefusal::NoSourceSlash => "netconsole: couldn't parse config - missing '/'\n"@,
            CmdlineRefusal::NoComma => "netconsole: couldn't parse config - missing ','\n"@,
            CmdlineRefusal::NoTargetAt =>
                "netconsole: couldn't parse config - missing second '@'\n"@,
            CmdlineRefusal::NoTargetSlash =>
                "netconsole: couldn't parse config - missing final '/'\n"@,
            CmdlineRefusal::NoTargetAddress =>
                "netconsole: couldn't parse config - missing target address\n"@,
        }
    }

    /// What is said of a refusal.
    pub fn message(self) -> (r: &'static str)
        ensures
            r@ == self.text(),
    {
        match self {
            CmdlineRefusal::ReleaseNeedsExtended =>
                "netconsole: release feature requires extended log message\n",
            CmdlineRefusal::NoSourceAt => "netconsole: couldn't parse config - missing '@'\n",
            CmdlineRefusal::NoSourceSlash => "netconsole: couldn't parse config - missing '/'\n",
            CmdlineRefusal::NoComma => "netconsole: couldn't parse config - missing ','\n",
            CmdlineRefusal::NoTargetAt =>
                "netconsole: couldn't parse config - missing second '@'\n",
            CmdlineRefusal::NoTargetSlash =>
                "netconsole: couldn't parse config - missing final '/'\n",
            CmdlineRefusal::NoTargetAddress =>
                "netconsole: couldn't parse config - missing target address\n",
        }
    }

    /// The error of a refusal.
    pub fn error(self) -> (e: Error)
        ensures
            e == Error(EINVAL),
    {
        Error(EINVAL)
    }
}

/// The first delimiter that is missing from the source port on.
pub open spec fn missing_delimiter(s: Seq<u8>) -> Option<CmdlineRefusal> {
    match split_at_first(s, '@' as u8) {
        None => Some(CmdlineRefusal::NoSourceAt),
        Some((_, s)) => match split_at_first(s, '/' as u8) {
            None => Some(CmdlineRefusal::NoSourceSlash),
            Some((_, s)) => match split_at_first(s, ',' as u8) {
                None => Some(CmdlineRefusal::NoComma),
                Some((_, s)) => match split_at_first(s, '@' as u8) {
                    None => Some(CmdlineRefusal::NoTargetAt),
                    Some((_, s)) => match split_at_first(s, '/' as u8) {
                        None => Some(CmdlineRefusal::NoTargetSlash),
                        Some(_) => None,
                    },
                },
            },
        },
    }
}

/// Why a command line has no parts.
pub open spec fn split_refusal(s: Seq<u8>) -> Option<CmdlineRefusal> {
    let extended = s.len() > 0 && s[0] == '+' as u8;
    let s1 = without_prefix(s, '+' as u8);
    if s1.len() > 0 && s1[0] == 'r' as u8 && !extended {
        Some(CmdlineRefusal::ReleaseNeedsExtended)
    } else {
        missing_delimiter(without_prefix(s1, 'r' as u8))
    }
}

/// A command line has parts exactly where there is no reason that it has none.
pub proof fn law_parts_or_reason(s: Seq<u8>)
    ensures
        split_cmdline(s) is Some <==> split_refusal(s) is None,
{
}

/// A flag character, or nothing.
pub open spec fn flag_text(flag: bool, c: u8) -> Seq<u8> {
    if flag {
        seq![c]
    } else {
        Seq::<u8>::empty()
    }
}

/// The command line that is made of its parts.
pub open spec fn cmdline_of(f: CmdlineText) -> Seq<u8> {
    flag_text(f.extended, '+' as u8) + flag_text(f.release, 'r' as u8) + addresses_of(f)
}

/// The command line from the source port on.
pub open spec fn addresses_of(f: CmdlineText) -> Seq<u8> {
    f.local_port + seq!['@' as u8] + (f.local_ip + seq!['/' as u8] + (f.dev_name + seq![',' as u8]
        + (f.remote_port + seq!['@' as u8] + (f.remote_ip + seq!['/' as u8] + f.remote_mac))))
}

/// The character does not occur.
pub open spec fn lacks(s: Seq<u8>, c: u8) -> bool {
    forall|i: int| 0 <= i < s.len() ==> #[trigger] s[i] != c
}

/// Parts that can be told apart again: none holds the delimiter behind it, and the source port
/// begins with no flag.
pub open spec fn separable(f: CmdlineText) -> bool {
    &&& lacks(f.local_port, '@' as u8)
    &&& lacks(f.local_ip, '/' as u8)
    &&& lacks(f.dev_name, ',' as u8)
    &&& lacks(f.remote_port, '@' as u8)
    &&& lacks(f.remote_ip, '/' as u8)
    &&& f.release ==> f.extended
    &&& !f.extended && f.local_port.len() > 0 ==> f.local_port[0] != '+' as u8
    &&& !f.release && f.local_port.len() > 0 ==> f.local_port[0] != 'r' as u8
}

/// Splitting at a delimiter that was put in.
proof fn lemma_split_joined(a: Seq<u8>, c: u8, b: Seq<u8>)
    requires
        lacks(a, c),
    ensures
        split_at_first(a + seq![c] + b, c) == Some((a, b)),
{
    let s = a + seq![c] + b;
    assert forall|i: int| 0 <= i < a.len() implies #[trigger] s[i] != c by {
        assert(s[i] == a[i]);
    }
    assert(s[a.len() as int] == c);
    lemma_until_unique(s, c, a.len() as int);
    assert(s.take(a.len() as int) =~= a);
    assert(s.skip(a.len() as int + 1) =~= b);
}

/// Joining what was split.
proof fn lemma_join_split(s: Seq<u8>, c: u8)
    ensures
        split_at_first(s, c) matches Some((a, b)) ==> a + seq![c] + b == s && lacks(a, c),
{
    lemma_until(s, c);
    if let Some((a, b)) = split_at_first(s, c) {
        assert(a + seq![c] + b =~= s);
        assert forall|i: int| 0 <= i < a.len() implies #[trigger] a[i] != c by {
            assert(a[i] == s[i]);
        }
    }
}

/// A command line that is put together from its parts is split into the same parts again.
pub proof fn law_cmdline_parts_round_trip(f: CmdlineText)
    requires
        separable(f),
    ensures
        split_cmdline(cmdline_of(f)) == Some(f),
{
    let s5 = f.remote_ip + seq!['/' as u8] + f.remote_mac;
    let s4 = f.remote_port + seq!['@' as u8] + s5;
    let s3 = f.dev_name + seq![',' as u8] + s4;
    let s2 = f.local_ip + seq!['/' as u8] + s3;
    let s1 = f.local_port + seq!['@' as u8] + s2;
    lemma_split_joined(f.remote_ip, '/' as u8, f.remote_mac);
    lemma_split_joined(f.remote_port, '@' as u8, s5);
    lemma_split_joined(f.dev_name, ',' as u8, s4);
    lemma_split_joined(f.local_ip, '/' as u8, s3);
    lemma_split_joined(f.local_port, '@' as u8, s2);
    assert(addresses_of(f) == s1);
    let first = s1[0];
    assert(f.local_port.len() > 0 ==> first == f.local_port[0]);
    assert(f.local_port.len() == 0 ==> first == '@' as u8);
    let s = cmdline_of(f);
    let r1 = flag_text(f.release, 'r' as u8) + s1;
    assert(s =~= flag_text(f.extended, '+' as u8) + r1);
    if f.extended {
        assert(s[0] == '+' as u8);
        assert(s.skip(1) =~= r1);
    } else {
        assert(s =~= r1);
        assert(r1 =~= s1);
    }
    assert(without_prefix(s, '+' as u8) == r1);
    if f.release {
        assert(r1[0] == 'r' as u8);
        assert(r1.skip(1) =~= s1);
    } else {
        assert(r1 =~= s1);
    }
    assert(without_prefix(r1, 'r' as u8) == s1);
}

/// A command line that is split into parts is made of these parts.
pub proof fn law_cmdline_text_round_trip(s: Seq<u8>)
    ensures
        split_cmdline(s) matches Some(f) ==> cmdline_of(f) == s && lacks(f.local_port, '@' as u8)
            && lacks(f.local_ip, '/' as u8) && lacks(f.dev_name, ',' as u8) && lacks(
            f.remote_port,
            '@' as u8,
        ) && lacks(f.remote_ip, '/' as u8) && (f.release ==> f.extended),
{
    if let Some(f) = split_cmdline(s) {
        let r1 = without_prefix(s, '+' as u8);
        let s1 = without_prefix(r1, 'r' as u8);
        let s2 = split_at_first(s1, '@' as u8).unwrap().1;
        let s3 = split_at_first(s2, '/' as u8).unwrap().1;
        let s4 = split_at_first(s3, ',' as u8).unwrap().1;
        let s5 = split_at_first(s4, '@' as u8).unwrap().1;
        lemma_join_split(s1, '@' as u8);
        lemma_join_split(s2, '/' as u8);
        lemma_join_split(s3, ',' as u8);
        lemma_join_split(s4, '@' as u8);
        lemma_join_split(s5, '/' as u8);
        assert(addresses_of(f) == s1);
        assert(flag_text(f.release, 'r' as u8) + s1 =~= r1);
        assert(flag_text(f.extended, '+' as u8) + r1 =~= s);
        assert(cmdline_of(f) =~= flag_text(f.extended, '+' as u8) + (flag_text(f.release, 'r' as u8)
            + s1));
    }
}

/// The release is prepended only in the extended log format.
pub proof fn law_release_needs_extended(s: Seq<u8>)
    ensures
        split_cmdline(s) matches Some(f) ==> (f.release ==> f.extended),
        s.len() > 0 && s[0] == 'r' as u8 ==> split_cmdline(s) is None,
{
}

/// The port that a text names, or the default where it names none.
pub open spec fn port_or(text: Seq<u8>, default: u16) -> u16 {
    match u16_text(text) {
        Some(port) => port,
        None => default,
    }
}

/// The address that was found, or the unspecified one.
pub open spec fn ip_or_unspecified(ip: Option<IpValue>) -> IpValue {
    match ip {
        Some(ip) => ip,
        None => IpValue::unspecified(),
    }
}

/// The configuration that the parts of a command line stand for, given the address that was found
/// in the source address text, if any, and the target address. Any other part that is empty or
/// does not parse leaves the default.
pub open spec fn config_of(
    f: CmdlineText,
    local_ip: Option<IpValue>,
    remote_ip: IpValue,
) -> TargetConfig {
    TargetConfig {
        extended: f.extended,
        release: f.release,
        dev_name: if f.dev_name.len() > 0 {
            dev_name_buffer(clipped(f.dev_name))
        } else {
            default_config().dev_name
        },
        local_port: port_or(f.local_port, DEFAULT_LOCAL_PORT),
        remote_port: port_or(f.remote_port, DEFAULT_REMOTE_PORT),
        local_ip: ip_or_unspecified(local_ip),
        remote_ip,
        remote_mac: match mac_of_text(trimmed(f.remote_mac)) {
            Some(mac) => mac,
            None => default_config().remote_mac,
        },
    }
}

/// The parts that spell a configuration in full: numbers in decimal, the device name and the
/// address texts as they are, the MAC address in its usual form.
pub open spec fn spelled_out(cfg: TargetConfig, local_ip: Seq<u8>, remote_ip: Seq<u8>) -> CmdlineText {
    CmdlineText {
        extended: cfg.extended,
        release: cfg.release,
        local_port: decimal(cfg.local_port as nat),
        local_ip,
        dev_name: c_text(cfg.dev_name),
        remote_port: decimal(cfg.remote_port as nat),
        remote_ip,
        remote_mac: text_of_mac(cfg.remote_mac),
    }
}

/// The parts of a command line, as text.
#[derive(Clone, Copy, Debug)]
pub struct CmdlineFields<'a> {
    pub extended: bool,
    pub release: bool,
    pub local_port: &'a [u8],
    pub local_ip: &'a [u8],
    pub dev_name: &'a [u8],
    pub remote_port: &'a [u8],
    pub remote_ip: &'a [u8],
    pub remote_mac: &'a [u8],
}

impl<'a> View for CmdlineFields<'a> {
    type V = CmdlineText;

    open spec fn view(&self) -> CmdlineText {
        CmdlineText {
            extended: self.extended,
            release: self.release,
            local_port: self.local_port@,
            local_ip: self.local_ip@,
            dev_name: self.dev_name@,
            remote_port: self.remote_port@,
            remote_ip: self.remote_ip@,
            remote_mac: self.remote_mac@,
        }
    }
}

/// Splits at the first `c`.
fn split_first<'a>(s: &'a [u8], c: u8) -> (r: Option<(&'a [u8], &'a [u8])>)
    ensures
        r is Some <==> split_at_first(s@, c) is Some,
        r matches Some(p) ==> split_at_first(s@, c) == Some((p.0@, p.1@)),
{
    proof {
        lemma_until(s@, c);
    }
    let len: usize = s.len();
    match position(s, c) {
        None => None,
        Some(n) => {
            let a = &s[0..n];
            let b = &s[n + 1..len];
            assert(a@ =~= s@.take(n as int));
            assert(b@ =~= s@.skip(n + 1));
            Some((a, b))
        },
    }
}

/// Splits the text from the source port on, or says which delimiter is missing.
fn scan_addresses<'a>(extended: bool, release: bool, s: &'a [u8]) -> (r: Result<
    CmdlineFields<'a>,
    CmdlineRefusal,
>)
    ensures
        match r {
            Ok(f) => split_addresses(extended, release, s@) == Some(f@) && missing_delimiter(
                s@,
            ) is None,
            Err(e) => split_addresses(extended, release, s@) is None && missing_delimiter(s@)
                == Some(e),
        },
{
    let (local_port, s) = match split_first(s, '@' as u8) {
        None => return Err(CmdlineRefusal::NoSourceAt),
        Some(p) => p,
    };
    let (local_ip, s) = match split_first(s, '/' as u8) {
        None => return Err(CmdlineRefusal::NoSourceSlash),
        Some(p) => p,
    };
    let (dev_name, s) = match split_first(s, ',' as u8) {
        None => return Err(CmdlineRefusal::NoComma),
        Some(p) => p,
    };
    let (remote_port, s) = match split_first(s, '@' as u8) {
        None => return Err(CmdlineRefusal::NoTargetAt),
        Some(p) => p,
    };
    let (remote_ip, remote_mac) = match split_first(s, '/' as u8) {
        None => return Err(CmdlineRefusal::NoTargetSlash),
        Some(p) => p,
    };
    Ok(
        CmdlineFields {
            extended,
            release,
            local_port,
            local_ip,
            dev_name,
            remote_port,
            remote_ip,
            remote_mac,
        },
    )
}

/// Splits a command line into its parts, or says why it has none.
pub fn scan_explained<'a>(s: &'a [u8]) -> (r: Result<CmdlineFields<'a>, CmdlineRefusal>)
    ensures
        match r {
            Ok(fields) => split_cmdline(s@) == Some(fields@) && split_refusal(s@) is None,
            Err(e) => split_cmdline(s@) is None && split_refusal(s@) == Some(e),
        },
{
    let extended: bool = s.len() > 0 && s[0] == '+' as u8;
    let s1: &'a [u8] = if extended {
        &s[1..s.len()]
    } else {
        s
    };
    assert(s1@ =~= without_prefix(s@, '+' as u8));
    let release: bool = s1.len() > 0 && s1[0] == 'r' as u8;
    if release && !extended {
        return Err(CmdlineRefusal::ReleaseNeedsExtended);
    }
    let s2: &'a [u8] = if release {
        &s1[1..s1.len()]
    } else {
        s1
    };
    assert(s2@ =~= without_prefix(s1@, 'r' as u8));
    scan_addresses(extended, release, s2)
}

/// Splits a command line into its parts.
pub fn scan_cmdline<'a>(s: &'a [u8]) -> (r: Result<CmdlineFields<'a>, Error>)
    ensures
        match split_cmdline(s@) {
            Some(f) => r matches Ok(fields) && fields@ == f,
            None => r == Err::<CmdlineFields, Error>(Error(EINVAL)),
        },
{
    match scan_explained(s) {
        Ok(fields) => Ok(fields),
        Err(e) => Err(e.error()),
    }
}

/// The view of an optional address.
pub open spec fn ip_view(ip: Option<IpAddr>) -> Option<IpValue> {
    match ip {
        Some(ip) => Some(ip@),
        None => None,
    }
}

impl<'a> CmdlineFields<'a> {
    /// The configuration that the parts stand for, given the address that was found in the source
    /// address text, if any, and the target address.
    pub fn resolve(self, local_ip: Option<IpAddr>, remote_ip: IpAddr) -> (cfg: ParsedConfig)
        ensures
            cfg@ == config_of(self@, ip_view(local_ip), remote_ip@),
    {
        let dev_name: [u8; IFNAMSIZ] = if self.dev_name.len() > 0 {
            fill_dev_name(self.dev_name)
        } else {
            default_dev_name()
        };
        ParsedConfig {
            extended: self.extended,
            release: self.release,
            local_port: match read_u16(self.local_port) {
                Some(port) => port,
                None => DEFAULT_LOCAL_PORT,
            },
            remote_port: match read_u16(self.remote_port) {
                Some(port) => port,
                None => DEFAULT_REMOTE_PORT,
            },
            dev_name,
            local_ip: match local_ip {
                Some(ip) => ip,
                None => IpAddr::default(),
            },
            remote_ip,
            remote_mac: match MacAddr::parse_ascii(self.remote_mac) {
                Ok(mac) => mac,
                Err(_) => MacAddr::broadcast(),
            },
        }
    }
}

/// `answer` is what `parse_ip` says of a text; of an empty text it is not asked.
pub open spec fn ip_answer<F: Fn(&[u8]) -> Option<IpAddr>>(
    parse_ip: F,
    text: Seq<u8>,
    answer: Option<IpAddr>,
) -> bool {
    if text.len() == 0 {
        answer is None
    } else {
        exists|s: &[u8]| #[trigger] call_ensures(parse_ip, (s,), answer) && s@ == text
    }
}

/// What the parts of a command line are answered, given what was found in the two address texts.
/// The target address is the one part that may not be left out.
pub open spec fn resolved(
    f: CmdlineText,
    local_ip: Option<IpAddr>,
    remote_ip: Option<IpAddr>,
    answer: Result<ParsedConfig, Error>,
) -> bool {
    match remote_ip {
        None => answer == Err::<ParsedConfig, Error>(Error(EINVAL)),
        Some(ip) => answer matches Ok(cfg) && cfg@ == config_of(f, ip_view(local_ip), ip@),
    }
}

/// What the parts of a command line say, given `parse_ip`.
pub open spec fn parts_answer<F: Fn(&[u8]) -> Option<IpAddr>>(
    parse_ip: F,
    f: CmdlineText,
    answer: Result<ParsedConfig, Error>,
) -> bool {
    exists|l: Option<IpAddr>, m: Option<IpAddr>| #[trigger]
        ip_answer(parse_ip, f.local_ip, l) && #[trigger] ip_answer(parse_ip, f.remote_ip, m)
            && resolved(f, l, m, answer)
}

/// What a command line says, given `parse_ip`. Line ends at its end do not count; without them an
/// empty one stands for the defaults.
pub open spec fn cmdline_answer<F: Fn(&[u8]) -> Option<IpAddr>>(
    parse_ip: F,
    input: Seq<u8>,
    answer: Result<ParsedConfig, Error>,
) -> bool {
    if trimmed(input).len() == 0 {
        answer matches Ok(cfg) && cfg@ == default_config()
    } else {
        match split_cmdline(trimmed(input)) {
            Some(f) => parts_answer(parse_ip, f, answer),
            None => answer == Err::<ParsedConfig, Error>(Error(EINVAL)),
        }
    }
}

/// An answer with the error in place of the reason.
pub open spec fn as_error(answer: Result<ParsedConfig, CmdlineRefusal>) -> Result<
    ParsedConfig,
    Error,
> {
    match answer {
        Ok(cfg) => Ok(cfg),
        Err(_) => Err(Error(EINVAL)),
    }
}

/// What a command line says, and why where it is refused.
pub open spec fn explained_answer<F: Fn(&[u8]) -> Option<IpAddr>>(
    parse_ip: F,
    input: Seq<u8>,
    answer: Result<ParsedConfig, CmdlineRefusal>,
) -> bool {
    &&& cmdline_answer(parse_ip, input, as_error(answer))
    &&& answer matches Err(e) ==> e == (match split_refusal(trimmed(input)) {
        Some(reason) => reason,
        None => CmdlineRefusal::NoTargetAddress,
    })
}

/// Parses a command line, and says why where it is refused. The address texts in it are handed to
/// `parse_ip`.
pub fn parse_explained<F: Fn(&[u8]) -> Option<IpAddr>>(input: &[u8], parse_ip: F) -> (r: Result<
    ParsedConfig,
    CmdlineRefusal,
>)
    requires
        forall|s: &[u8]| call_requires(parse_ip, (s,)),
    ensures
        explained_answer(parse_ip, input@, r),
{
    let text = trim_newline(input);
    if text.len() == 0 {
        return Ok(ParsedConfig::new());
    }
    let fields = match scan_explained(text) {
        Ok(fields) => fields,
        Err(e) => return Err(e),
    };
    let local_ip: Option<IpAddr> = if fields.local_ip.len() > 0 {
        parse_ip(fields.local_ip)
    } else {
        None
    };
    let remote_ip: Option<IpAddr> = if fields.remote_ip.len() > 0 {
        parse_ip(fields.remote_ip)
    } else {
        None
    };
    assert(ip_answer(parse_ip, fields@.local_ip, local_ip));
    assert(ip_answer(parse_ip, fields@.remote_ip, remote_ip));
    let r: Result<ParsedConfig, CmdlineRefusal> = match remote_ip {
        Some(ip) => Ok(fields.resolve(local_ip, ip)),
        None => Err(CmdlineRefusal::NoTargetAddress),
    };
    assert(resolved(fields@, local_ip, remote_ip, as_error(r)));
    assert(parts_answer(parse_ip, fields@, as_error(r)));
    r
}

/// Parses a command line. The address texts in it are handed to `parse_ip`.
pub fn parse_cmdline<F: Fn(&[u8]) -> Option<IpAddr>>(
    input: &[u8],
    parse_ip: F,
) -> (r: Result<ParsedConfig, Error>)
    requires
        forall|s: &[u8]| call_requires(parse_ip, (s,)),
    ensures
        cmdline_answer(parse_ip, input@, r),
{
    match parse_explained(input, parse_ip) {
        Ok(cfg) => Ok(cfg),
        Err(e) => Err(e.error()),
    }
}

/// A command line that names no target address is refused.
pub proof fn law_target_address_required<F: Fn(&[u8]) -> Option<IpAddr>>(
    parse_ip: F,
    f: CmdlineText,
    input: Seq<u8>,
    answer: Result<ParsedConfig, Error>,
)
    requires
        trimmed(input).len() > 0,
        split_cmdline(trimmed(input)) == Some(f),
        f.remote_ip.len() == 0,
        cmdline_answer(parse_ip, input, answer),
    ensures
        answer == Err::<ParsedConfig, Error>(Error(EINVAL)),
{
}

/// Line ends behind a command line make no difference to what it says.
pub proof fn law_line_ends_make_no_difference<F: Fn(&[u8]) -> Option<IpAddr>>(
    parse_ip: F,
    input: Seq<u8>,
    tail: Seq<u8>,
    answer: Result<ParsedConfig, Error>,
)
    requires
        forall|i: int| 0 <= i < tail.len() ==> is_eol(#[trigger] tail[i]),
    ensures
        cmdline_answer(parse_ip, input + tail, answer) == cmdline_answer(parse_ip, input, answer),
{
    law_trim_ignores_line_ends(input, tail);
}

/// `parse_ip` always says the same of the same text.
pub open spec fn deterministic<F: Fn(&[u8]) -> Option<IpAddr>>(parse_ip: F) -> bool {
    forall|s: &[u8], t: &[u8], a: Option<IpAddr>, b: Option<IpAddr>|
        #![trigger call_ensures(parse_ip, (s,), a), call_ensures(parse_ip, (t,), b)]
        s@ == t@ && call_ensures(parse_ip, (s,), a) && call_ensures(parse_ip, (t,), b) ==> a == b
}

/// Two outcomes are the same: the same error, or configurations that agree in every field.
pub open spec fn same_outcome(
    a: Result<ParsedConfig, Error>,
    b: Result<ParsedConfig, Error>,
) -> bool {
    match (a, b) {
        (Ok(x), Ok(y)) => x@ == y@,
        (Err(x), Err(y)) => x == y,
        _ => false,
    }
}

/// Parsing a command line with line ends behind it has the outcome of parsing it without.
pub proof fn law_line_ends_keep_outcome<F: Fn(&[u8]) -> Option<IpAddr>>(
    parse_ip: F,
    input: Seq<u8>,
    tail: Seq<u8>,
    without: Result<ParsedConfig, Error>,
    with: Result<ParsedConfig, Error>,
)
    requires
        deterministic(parse_ip),
        forall|i: int| 0 <= i < tail.len() ==> is_eol(#[trigger] tail[i]),
        cmdline_answer(parse_ip, input, without),
        cmdline_answer(parse_ip, input + tail, with),
    ensures
        same_outcome(without, with),
{
    law_line_ends_make_no_difference(parse_ip, input, tail, with);
    if trimmed(input).len() > 0 {
        if let Some(f) = split_cmdline(trimmed(input)) {
            let (l1, m1) = choose|l: Option<IpAddr>, m: Option<IpAddr>| #[trigger]
                ip_answer(parse_ip, f.local_ip, l) && #[trigger] ip_answer(parse_ip, f.remote_ip, m)
                    && resolved(f, l, m, without);
            let (l2, m2) = choose|l: Option<IpAddr>, m: Option<IpAddr>| #[trigger]
                ip_answer(parse_ip, f.local_ip, l) && #[trigger] ip_answer(parse_ip, f.remote_ip, m)
                    && resolved(f, l, m, with);
            lemma_same_answer(parse_ip, f.local_ip, l1, l2);
            lemma_same_answer(parse_ip, f.remote_ip, m1, m2);
        }
    }
}

/// Of one text there is one answer.
proof fn lemma_same_answer<F: Fn(&[u8]) -> Option<IpAddr>>(
    parse_ip: F,
    text: Seq<u8>,
    a: Option<IpAddr>,
    b: Option<IpAddr>,
)
    requires
        deterministic(parse_ip),
        ip_answer(parse_ip, text, a),
        ip_answer(parse_ip, text, b),
    ensures
        a == b,
{
    if text.len() > 0 {
        let s = choose|s: &[u8]| #[trigger] call_ensures(parse_ip, (s,), a) && s@ == text;
        let t = choose|t: &[u8]| #[trigger] call_ensures(parse_ip, (t,), b) && t@ == text;
        assert(s@ == t@);
    }
}

/// A configuration that is spelled out on a command line is what the command line parses to,
/// given that the two address texts parse to its addresses.
pub proof fn law_cmdline_config_round_trip<F: Fn(&[u8]) -> Option<IpAddr>>(
    parse_ip: F,
    cfg: TargetConfig,
    local_ip: Seq<u8>,
    remote_ip: Seq<u8>,
    answer: Result<ParsedConfig, Error>,
)
    requires
        cfg.release ==> cfg.extended,
        cfg.remote_mac.len() == 6,
        0 < c_text(cfg.dev_name).len() < IFNAMSIZ,
        cfg.dev_name == dev_name_buffer(c_text(cfg.dev_name)),
        lacks(c_text(cfg.dev_name), ',' as u8),
        lacks(local_ip, '/' as u8),
        lacks(remote_ip, '/' as u8),
        forall|l: Option<IpAddr>| #[trigger]
            ip_answer(parse_ip, local_ip, l) ==> ip_or_unspecified(ip_view(l)) == cfg.local_ip,
        forall|m: Option<IpAddr>| #[trigger]
            ip_answer(parse_ip, remote_ip, m) ==> ip_view(m) == Some(cfg.remote_ip),
        cmdline_answer(parse_ip, cmdline_of(spelled_out(cfg, local_ip, remote_ip)), answer),
    ensures
        split_cmdline(trimmed(cmdline_of(spelled_out(cfg, local_ip, remote_ip)))) == Some(
            spelled_out(cfg, local_ip, remote_ip),
        ),
        answer matches Ok(parsed) && parsed@ == cfg,
{
    let f = spelled_out(cfg, local_ip, remote_ip);
    lemma_decimal_value(cfg.local_port as nat);
    lemma_decimal_value(cfg.remote_port as nat);
    law_u16_round_trip(cfg.local_port);
    law_u16_round_trip(cfg.remote_port);
    assert forall|i: int| 0 <= i < f.local_port.len() implies #[trigger] f.local_port[i] != '@' as u8 by {
        assert(is_digit(f.local_port[i]));
    }
    assert forall|i: int| 0 <= i < f.remote_port.len() implies #[trigger] f.remote_port[i]
        != '@' as u8 by {
        assert(is_digit(f.remote_port[i]));
    }
    assert(is_digit(f.local_port[0]));
    law_cmdline_parts_round_trip(f);
    law_mac_round_trip(cfg.remote_mac);
    let s = cmdline_of(f);
    let mac = f.remote_mac;
    assert(mac.last() == hex_char(cfg.remote_mac[5] % 16));
    assert(s.last() == mac.last());
    assert(trimmed(s) == s);
    assert(trimmed(mac) == mac);
    assert(s.len() > 0);
    assert forall|l: Option<IpValue>| ip_or_unspecified(l) == cfg.local_ip implies #[trigger]
        config_of(f, l, cfg.remote_ip) == cfg by {}
    let (l, m) = choose|l: Option<IpAddr>, m: Option<IpAddr>| #[trigger]
        ip_answer(parse_ip, f.local_ip, l) && #[trigger] ip_answer(parse_ip, f.remote_ip, m)
            && resolved(f, l, m, answer);
    assert(resolved(f, l, m, answer));
}

/// A line of the banner: a label, then a text.
pub open spec fn banner_line(label: Seq<char>, text: Seq<u8>) -> Seq<u8> {
    (ascii(label) + text).push('\n' as u8)
}

/// The banner that announces a configuration, line by line. The texts of the two addresses are
/// given; a device name that is empty or no text is left out.
pub open spec fn banner(cfg: TargetConfig, local_ip: Seq<u8>, remote_ip: Seq<u8>) -> Seq<Seq<u8>> {
    let dev = c_text(cfg.dev_name);
    let nothing = Seq::<u8>::empty();
    seq![
        banner_line("netconsole: local port "@, decimal(cfg.local_port as nat)),
        banner_line("netconsole: local IP address "@, local_ip),
    ] + (if dev.len() > 0 && vstd::utf8::valid_utf8(dev) {
        seq![banner_line("netconsole: interface '"@, dev.push('\'' as u8))]
    } else {
        seq![]
    }) + seq![
        banner_line("netconsole: remote port "@, decimal(cfg.remote_port as nat)),
        banner_line("netconsole: remote IP address "@, remote_ip),
        banner_line("netconsole: remote ethernet address "@, text_of_mac(cfg.remote_mac)),
    ] + (if cfg.extended {
        seq![banner_line("netconsole: extended console enabled"@, nothing)]
    } else {
        seq![]
    }) + (if cfg.release {
        seq![banner_line("netconsole: release prepend enabled"@, nothing)]
    } else {
        seq![]
    })
}

/// Adds a line to a banner.
fn push_line(lines: &mut Vec<Vec<u8>>, label: &str, text: &[u8])
    requires
        vstd::utf8::is_ascii_chars(label@),
    ensures
        lines_view(final(lines)@) == lines_view(old(lines)@).push(banner_line(label@, text@)),
{
    let mut line: Vec<u8> = to_vec(ascii_bytes(label));
    append_bytes(&mut line, text);
    line.push('\n' as u8);
    lines.push(line);
    assert(lines_view(lines@) =~= lines_view(old(lines)@).push(banner_line(label@, text@)));
}

/// The banner that announces a configuration, line by line.
pub fn config_banner(cfg: &ParsedConfig, local_ip: &[u8], remote_ip: &[u8]) -> (lines: Vec<Vec<u8>>)
    ensures
        lines_view(lines@) == banner(cfg@, local_ip@, remote_ip@),
{
    proof {
        reveal_strlit("netconsole: local port ");
        reveal_strlit("netconsole: local IP address ");
        reveal_strlit("netconsole: interface '");
        reveal_strlit("netconsole: remote port ");
        reveal_strlit("netconsole: remote IP address ");
        reveal_strlit("netconsole: remote ethernet address ");
        reveal_strlit("netconsole: extended console enabled");
        reveal_strlit("netconsole: release prepend enabled");
    }
    let nothing: Vec<u8> = Vec::new();
    let mut lines: Vec<Vec<u8>> = Vec::new();
    let mut buf: [u8; 16] = [0u8; 16];
    push_line(&mut lines, "netconsole: local port ", format_u16(&mut buf, cfg.local_port));
    push_line(&mut lines, "netconsole: local IP address ", local_ip);
    let len: usize = strlen(&cfg.dev_name);
    let dev = &cfg.dev_name[0..len];
    assert(dev@ =~= c_text(cfg.dev_name@));
    if len > 0 && is_utf8(dev) {
        let mut quoted: Vec<u8> = to_vec(dev);
        quoted.push('\'' as u8);
        push_line(&mut lines, "netconsole: interface '", quoted.as_slice());
    }
    push_line(&mut lines, "netconsole: remote port ", format_u16(&mut buf, cfg.remote_port));
    push_line(&mut lines, "netconsole: remote IP address ", remote_ip);
    let mut mac: [u8; 17] = [0u8; 17];
    let _ = cfg.remote_mac.format_into(&mut mac);
    assert(mac@ =~= text_of_mac(cfg.remote_mac@));
    push_line(&mut lines, "netconsole: remote ethernet address ", &mac);
    if cfg.extended {
        push_line(&mut lines, "netconsole: extended console enabled", nothing.as_slice());
    }
    if cfg.release {
        push_line(&mut lines, "netconsole: release prepend enabled", nothing.as_slice());
    }
    assert(lines_view(lines@) =~= banner(cfg@, local_ip@, remote_ip@));
    lines
}

/// Each field of a configuration comes from its own part of the command line and from no other:
/// a port is the number that its text denotes, or its default where the text denotes none; a
/// device name is the first fifteen bytes of its text, or the default one where there is none; the
/// source address is the one that was found, or the unspecified one; the MAC address is the one
/// that its text spells, or the broadcast address.
pub proof fn law_each_part_stands_alone(
    f: CmdlineText,
    local_ip: Option<IpValue>,
    remote_ip: IpValue,
)
    ensures
        config_of(f, local_ip, remote_ip).extended == f.extended,
        config_of(f, local_ip, remote_ip).release == f.release,
        u16_text(f.local_port) is None ==> config_of(f, local_ip, remote_ip).local_port == 6665,
        u16_text(f.remote_port) is None ==> config_of(f, local_ip, remote_ip).remote_port == 6666,
        f.local_port.len() == 0 ==> config_of(f, local_ip, remote_ip).local_port == 6665,
        f.remote_port.len() == 0 ==> config_of(f, local_ip, remote_ip).remote_port == 6666,
        u16_text(f.local_port) matches Some(p) ==> config_of(f, local_ip, remote_ip).local_port
            == p,
        u16_text(f.remote_port) matches Some(p) ==> config_of(f, local_ip, remote_ip).remote_port
            == p,
        config_of(f, local_ip, remote_ip).dev_name.len() == 16,
        f.dev_name.len() > 0 ==> forall|i: int|
            0 <= i < 16 ==> #[trigger] config_of(f, local_ip, remote_ip).dev_name[i] == (if i < 15
                && i < f.dev_name.len() {
                f.dev_name[i]
            } else {
                0
            }),
        f.dev_name.len() == 0 ==> config_of(f, local_ip, remote_ip).dev_name
            == default_config().dev_name,
        local_ip matches Some(ip) ==> config_of(f, local_ip, remote_ip).local_ip == ip,
        local_ip is None ==> config_of(f, local_ip, remote_ip).local_ip
            == IpValue::unspecified(),
        config_of(f, local_ip, remote_ip).remote_ip == remote_ip,
        mac_of_text(trimmed(f.remote_mac)) matches Some(mac) ==> config_of(
            f,
            local_ip,
            remote_ip,
        ).remote_mac == mac,
        mac_of_text(trimmed(f.remote_mac)) is None ==> config_of(
            f,
            local_ip,
            remote_ip,
        ).remote_mac =~= seq![255u8, 255u8, 255u8, 255u8, 255u8, 255u8],
{
    law_dev_name_buffer_is_bytewise(clipped(f.dev_name));
    law_dev_name_buffer_is_bytewise(f.dev_name);
    law_default_configuration();
    if f.dev_name.len() > 0 {
        assert forall|i: int| 0 <= i < 16 implies #[trigger] config_of(
            f,
            local_ip,
            remote_ip,
        ).dev_name[i] == (if i < 15 && i < f.dev_name.len() {
            f.dev_name[i]
        } else {
            0
        }) by {
            assert(dev_name_buffer(clipped(f.dev_name))[i] == (if i < clipped(f.dev_name).len() {
                clipped(f.dev_name)[i]
            } else {
                0
            }));
        }
    }
}

/// A command line that is accepted gives the ports that are named in it, each in its place, and
/// the default of each place where none is named, whatever the other parts are.
pub proof fn law_ports_of_an_accepted_line<F: Fn(&[u8]) -> Option<IpAddr>>(
    parse_ip: F,
    input: Seq<u8>,
    f: CmdlineText,
    cfg: ParsedConfig,
)
    requires
        trimmed(input).len() > 0,
        split_cmdline(trimmed(input)) == Some(f),
        cmdline_answer(parse_ip, input, Ok::<ParsedConfig, Error>(cfg)),
    ensures
        u16_text(f.local_port) is None ==> cfg.local_port == 6665,
        u16_text(f.local_port) matches Some(p) ==> cfg.local_port == p,
        u16_text(f.remote_port) is None ==> cfg.remote_port == 6666,
        u16_text(f.remote_port) matches Some(p) ==> cfg.remote_port == p,
        cfg.extended == f.extended,
        cfg.release == f.release,
{
    let answer = Ok::<ParsedConfig, Error>(cfg);
    assert(parts_answer(parse_ip, f, answer));
    let (l, m) = choose|l: Option<IpAddr>, m: Option<IpAddr>| #[trigger]
        ip_answer(parse_ip, f.local_ip, l) && #[trigger] ip_answer(parse_ip, f.remote_ip, m)
            && resolved(f, l, m, answer);
    assert(resolved(f, l, m, answer));
    law_each_part_stands_alone(f, ip_view(l), m.unwrap()@);
    assert(cfg@.local_port == cfg.local_port && cfg@.remote_port == cfg.remote_port);
    assert(cfg@.extended == cfg.extended && cfg@.release == cfg.release);
}

/// A configuration from the command line stands for the values of its fields.
pub proof fn law_parsed_config_is_fieldwise(cfg: ParsedConfig)
    ensures
        cfg@.extended == cfg.extended,
        cfg@.release == cfg.release,
        cfg@.dev_name == cfg.dev_name@,
        cfg@.local_port == cfg.local_port,
        cfg@.remote_port == cfg.remote_port,
        cfg@.local_ip == cfg.local_ip@,
        cfg@.remote_ip == cfg.remote_ip@,
        cfg@.remote_mac == cfg.remote_mac.0@,
{
}

/// Sequences may be joined in either order.
proof fn lemma_join_later(p: Seq<u8>, a: Seq<u8>, b: Seq<u8>, c: Seq<u8>)
    ensures
        p + a + b + c == p + (a + b + c),
{
    assert(p + a + b + c =~= p + (a + b + c));
}

/// A command line as it is written is made of its parts, and does not end in a line end unless its
/// MAC address does.
proof fn lemma_line_as_written(f: CmdlineText, tail: Seq<u8>)
    requires
        f.remote_mac.len() > 0 ==> f.remote_mac.last() != 10 && f.remote_mac.last() != 13,
    ensures
        (if f.extended {
            seq![43u8]
        } else {
            Seq::<u8>::empty()
        }) + (if f.release {
            seq![114u8]
        } else {
            Seq::<u8>::empty()
        }) + f.local_port + seq![64u8] + f.local_ip + seq![47u8] + f.dev_name + seq![44u8]
            + f.remote_port + seq![64u8] + f.remote_ip + seq![47u8] + f.remote_mac + tail
            == cmdline_of(f) + tail,
        cmdline_of(f).len() > 0,
        cmdline_of(f).last() != 10 && cmdline_of(f).last() != 13,
{
    let flags = flag_text(f.extended, '+' as u8) + flag_text(f.release, 'r' as u8);
    let s5 = f.remote_ip + seq![47u8] + f.remote_mac;
    let s4 = f.remote_port + seq![64u8] + s5;
    let s3 = f.dev_name + seq![44u8] + s4;
    let s2 = f.local_ip + seq![47u8] + s3;
    let p1 = flags + f.local_port + seq![64u8];
    let p2 = p1 + f.local_ip + seq![47u8];
    let p3 = p2 + f.dev_name + seq![44u8];
    let p4 = p3 + f.remote_port + seq![64u8];
    lemma_join_later(p4, f.remote_ip, seq![47u8], f.remote_mac);
    lemma_join_later(p3, f.remote_port, seq![64u8], s5);
    lemma_join_later(p2, f.dev_name, seq![44u8], s4);
    lemma_join_later(p1, f.local_ip, seq![47u8], s3);
    lemma_join_later(flags, f.local_port, seq![64u8], s2);
    let last = s5.last();
    assert(last != 10 && last != 13);
    assert(s4.last() == last);
    assert(s3.last() == last);
    assert(s2.last() == last);
    assert(addresses_of(f).last() == last);
    assert(cmdline_of(f).last() == last);
}

/// How a command line is written: a plus sign for the extended format, an `r` for the release, the
/// source port, `@`, the source address, `/`, the device, `,`, the target port, `@`, the target
/// address, `/`, the MAC address, and any line ends. What is written in each place is the part
/// that is answered.
pub proof fn law_cmdline_as_written<F: Fn(&[u8]) -> Option<IpAddr>>(
    parse_ip: F,
    f: CmdlineText,
    tail: Seq<u8>,
    answer: Result<ParsedConfig, Error>,
)
    requires
        forall|i: int| 0 <= i < tail.len() ==> (#[trigger] tail[i] == 10 || tail[i] == 13),
        f.remote_mac.len() > 0 ==> f.remote_mac.last() != 10 && f.remote_mac.last() != 13,
        forall|i: int| 0 <= i < f.local_port.len() ==> #[trigger] f.local_port[i] != 64,
        forall|i: int| 0 <= i < f.local_ip.len() ==> #[trigger] f.local_ip[i] != 47,
        forall|i: int| 0 <= i < f.dev_name.len() ==> #[trigger] f.dev_name[i] != 44,
        forall|i: int| 0 <= i < f.remote_port.len() ==> #[trigger] f.remote_port[i] != 64,
        forall|i: int| 0 <= i < f.remote_ip.len() ==> #[trigger] f.remote_ip[i] != 47,
        f.release ==> f.extended,
        !f.extended && f.local_port.len() > 0 ==> f.local_port[0] != 43,
        !f.release && f.local_port.len() > 0 ==> f.local_port[0] != 114,
        cmdline_answer(
            parse_ip,
            (if f.extended {
                seq![43u8]
            } else {
                Seq::<u8>::empty()
            }) + (if f.release {
                seq![114u8]
            } else {
                Seq::<u8>::empty()
            }) + f.local_port + seq![64u8] + f.local_ip + seq![47u8] + f.dev_name + seq![44u8]
                + f.remote_port + seq![64u8] + f.remote_ip + seq![47u8] + f.remote_mac + tail,
            answer,
        ),
    ensures
        exists|l: Option<IpAddr>, m: Option<IpAddr>| #[trigger]
            ip_answer(parse_ip, f.local_ip, l) && #[trigger] ip_answer(parse_ip, f.remote_ip, m) && (
            match m {
                None => answer == Err::<ParsedConfig, Error>(Error(-22i32)),
                Some(ip) => answer matches Ok(cfg) && cfg@ == config_of(
                    f,
                    match l {
                        Some(a) => Some(a@),
                        None => None,
                    },
                    ip@,
                ),
            }),
{
    let line = cmdline_of(f);
    lemma_line_as_written(f, tail);
    assert(trimmed(line) == line);
    law_cmdline_parts_round_trip(f);
    law_line_ends_make_no_difference(parse_ip, line, tail, answer);
    assert(parts_answer(parse_ip, f, answer));
    let (l, m) = choose|l: Option<IpAddr>, m: Option<IpAddr>| #[trigger]
        ip_answer(parse_ip, f.local_ip, l) && #[trigger] ip_answer(parse_ip, f.remote_ip, m)
            && resolved(f, l, m, answer);
    assert(ip_answer(parse_ip, f.local_ip, l) && ip_answer(parse_ip, f.remote_ip, m));
    assert(resolved(f, l, m, answer));
    assert(match m {
        None => answer == Err::<ParsedConfig, Error>(Error(-22i32)),
        Some(ip) => answer matches Ok(cfg) && cfg@ == config_of(
            f,
            match l {
                Some(a) => Some(a@),
                None => None,
            },
            ip@,
        ),
    });
}

/// Of an empty address text nobody is asked and no address is found; of any other, the answer is
/// that of the parser on that very text.
pub proof fn law_address_text_is_asked_whole<F: Fn(&[u8]) -> Option<IpAddr>>(
    parse_ip: F,
    text: Seq<u8>,
    answer: Option<IpAddr>,
)
    requires
        ip_answer(parse_ip, text, answer),
    ensures
        text.len() == 0 ==> answer is None,
        text.len() > 0 ==> exists|s: &[u8]| #[trigger]
            call_ensures(parse_ip, (s,), answer) && s@ == text,
{
}

/// Nothing but line ends stands for the defaults.
pub proof fn law_empty_line_is_the_default<F: Fn(&[u8]) -> Option<IpAddr>>(
    parse_ip: F,
    input: Seq<u8>,
    answer: Result<ParsedConfig, Error>,
)
    requires
        forall|i: int| 0 <= i < input.len() ==> (#[trigger] input[i] == 10 || input[i] == 13),
        cmdline_answer(parse_ip, input, answer),
    ensures
        answer matches Ok(cfg) && cfg@ == default_config(),
{
    law_trim_ignores_line_ends(Seq::<u8>::empty(), input);
    assert(Seq::<u8>::empty() + input =~= input);
}

/// The first delimiter that a line lacks is the reason that is given; so is the release flag
/// without the extended flag. `a` to `e` are what stands in front of the five delimiters.
pub proof fn law_reason_of_refusal(
    a: Seq<u8>,
    b: Seq<u8>,
    c: Seq<u8>,
    d: Seq<u8>,
    e: Seq<u8>,
    rest: Seq<u8>,
)
    requires
        forall|i: int| 0 <= i < a.len() ==> #[trigger] a[i] != 64,
        forall|i: int| 0 <= i < b.len() ==> #[trigger] b[i] != 47,
        forall|i: int| 0 <= i < c.len() ==> #[trigger] c[i] != 44,
        forall|i: int| 0 <= i < d.len() ==> #[trigger] d[i] != 64,
        forall|i: int| 0 <= i < e.len() ==> #[trigger] e[i] != 47,
    ensures
        missing_delimiter(a) == Some(CmdlineRefusal::NoSourceAt),
        missing_delimiter(a + seq![64u8] + b) == Some(CmdlineRefusal::NoSourceSlash),
        missing_delimiter(a + seq![64u8] + (b + seq![47u8] + c)) == Some(CmdlineRefusal::NoComma),
        missing_delimiter(a + seq![64u8] + (b + seq![47u8] + (c + seq![44u8] + d))) == Some(
            CmdlineRefusal::NoTargetAt,
        ),
        missing_delimiter(
            a + seq![64u8] + (b + seq![47u8] + (c + seq![44u8] + (d + seq![64u8] + e))),
        ) == Some(CmdlineRefusal::NoTargetSlash),
        missing_delimiter(
            a + seq![64u8] + (b + seq![47u8] + (c + seq![44u8] + (d + seq![64u8] + (e + seq![47u8]
                + rest)))),
        ) is None,
        split_refusal(seq![114u8] + rest) == Some(CmdlineRefusal::ReleaseNeedsExtended),
        split_refusal(seq![43u8, 114u8] + rest) == missing_delimiter(rest),
        rest.len() == 0 || rest[0] != 114 ==> split_refusal(seq![43u8] + rest) == missing_delimiter(
            rest,
        ),
        rest.len() == 0 || (rest[0] != 114 && rest[0] != 43) ==> split_refusal(rest)
            == missing_delimiter(rest),
{
    lemma_split_lacking(a, 64);
    lemma_split_lacking(b, 47);
    lemma_split_lacking(c, 44);
    lemma_split_lacking(d, 64);
    lemma_split_lacking(e, 47);
    lemma_split_joined(a, 64, b);
    lemma_split_joined(a, 64, b + seq![47u8] + c);
    lemma_split_joined(b, 47, c);
    let t4 = c + seq![44u8] + d;
    lemma_split_joined(a, 64, b + seq![47u8] + t4);
    lemma_split_joined(b, 47, t4);
    lemma_split_joined(c, 44, d);
    let t5 = c + seq![44u8] + (d + seq![64u8] + e);
    lemma_split_joined(a, 64, b + seq![47u8] + t5);
    lemma_split_joined(b, 47, t5);
    lemma_split_joined(c, 44, d + seq![64u8] + e);
    lemma_split_joined(d, 64, e);
    let t6 = d + seq![64u8] + (e + seq![47u8] + rest);
    lemma_split_joined(a, 64, b + seq![47u8] + (c + seq![44u8] + t6));
    lemma_split_joined(b, 47, c + seq![44u8] + t6);
    lemma_split_joined(c, 44, t6);
    lemma_split_joined(d, 64, e + seq![47u8] + rest);
    lemma_split_joined(e, 47, rest);
    assert((seq![43u8] + rest).skip(1) =~= rest);
    assert((seq![43u8, 114u8] + rest).skip(1) =~= seq![114u8] + rest);
    assert((seq![114u8] + rest).skip(1) =~= rest);
}

/// A text without the delimiter cannot be split at it.
proof fn lemma_split_lacking(s: Seq<u8>, c: u8)
    requires
        lacks(s, c),
    ensures
        split_at_first(s, c) is None,
{
    lemma_until_unique(s, c, s.len() as int);
}

/// A refused line is answered with the error -22 and the reason that it has no parts, or that
/// there is no target address where it has parts. A line that has no parts is refused.
pub proof fn law_refusal_is_explained<F: Fn(&[u8]) -> Option<IpAddr>>(
    parse_ip: F,
    input: Seq<u8>,
    answer: Result<ParsedConfig, CmdlineRefusal>,
)
    requires
        explained_answer(parse_ip, input, answer),
    ensures
        split_refusal(trimmed(input)) matches Some(reason) ==> trimmed(input).len() > 0 ==> answer
            == Err::<ParsedConfig, CmdlineRefusal>(reason),
        trimmed(input).len() == 0 ==> answer is Ok,
        split_refusal(trimmed(input)) is None && answer is Err ==> answer == Err::<
            ParsedConfig,
            CmdlineRefusal,
        >(CmdlineRefusal::NoTargetAddress),
        answer matches Ok(cfg) ==> cmdline_answer(parse_ip, input, Ok::<ParsedConfig, Error>(cfg)),
        answer is Err ==> cmdline_answer(
            parse_ip,
            input,
            Err::<ParsedConfig, Error>(Error(-22i32)),
        ),
{
    law_parts_or_reason(trimmed(input));
}

/// What the banner says, line by line.
pub proof fn law_banner_lines(cfg: TargetConfig, local_ip: Seq<u8>, remote_ip: Seq<u8>)
    ensures
        banner(cfg, local_ip, remote_ip) =~= seq![
            ascii("netconsole: local port "@) + decimal(cfg.local_port as nat) + seq![10u8],
            ascii("netconsole: local IP address "@) + local_ip + seq![10u8],
        ] + (if c_text(cfg.dev_name).len() > 0 && vstd::utf8::valid_utf8(c_text(cfg.dev_name)) {
            seq![
                ascii("netconsole: interface '"@) + c_text(cfg.dev_name) + seq![39u8] + seq![10u8],
            ]
        } else {
            seq![]
        }) + seq![
            ascii("netconsole: remote port "@) + decimal(cfg.remote_port as nat) + seq![10u8],
            ascii("netconsole: remote IP address "@) + remote_ip + seq![10u8],
            ascii("netconsole: remote ethernet address "@) + text_of_mac(cfg.remote_mac)
                + seq![10u8],
        ] + (if cfg.extended {
            seq![ascii("netconsole: extended console enabled"@) + seq![10u8]]
        } else {
            seq![]
        }) + (if cfg.release {
            seq![ascii("netconsole: release prepend enabled"@) + seq![10u8]]
        } else {
            seq![]
        }),
{
    assert forall|label: Seq<char>, text: Seq<u8>| #[trigger]
        banner_line(label, text) == ascii(label) + text + seq![10u8] by {
        assert(banner_line(label, text) =~= ascii(label) + text + seq![10u8]);
    }
    let dev = c_text(cfg.dev_name);
    assert(ascii("netconsole: interface '"@) + dev.push('\'' as u8) + seq![10u8] =~= ascii(
        "netconsole: interface '"@,
    ) + dev + seq![39u8] + seq![10u8]);
    assert(ascii("netconsole: extended console enabled"@) + Seq::<u8>::empty() =~= ascii(
        "netconsole: extended console enabled"@,
    ));
    assert(ascii("netconsole: release prepend enabled"@) + Seq::<u8>::empty() =~= ascii(
        "netconsole: release prepend enabled"@,
    ));
}

/// The parts of a command line stand for the texts of their fields.
pub proof fn law_parts_are_fieldwise(fields: CmdlineFields)
    ensures
        fields@.extended == fields.extended,
        fields@.release == fields.release,
        fields@.local_port == fields.local_port@,
        fields@.local_ip == fields.local_ip@,
        fields@.dev_name == fields.dev_name@,
        fields@.remote_port == fields.remote_port@,
        fields@.remote_ip == fields.remote_ip@,
        fields@.remote_mac == fields.remote_mac@,
{
}

} // verus!
