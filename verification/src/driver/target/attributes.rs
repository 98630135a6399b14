//! The attributes of a target.
use vstd::prelude::*;
use crate::bytes::{
    c_text,
    copy_line,
    is_eol,
    law_trim_idempotent,
    law_trim_ignores_newline,
    lemma_trimmed,
    lemma_until,
    lemma_until_unique,
    overlay,
    strlen,
    trim_newline,
    trimmed,
};
use crate::cstr::no_nul;
use crate::decimal::{
    decimal,
    format_u16,
    format_u64,
    law_u16_line_round_trip,
    lemma_decimal_len,
    parse_u16,
    u16_text,
};
use crate::driver::attribute::{
    bool_line,
    bool_of_text,
    law_bool_round_trip,
    parse_bool,
    show_bool,
    PAGE_SIZE,
};
use crate::driver::config::{
    clipped,
    dev_name_buffer,
    fill_dev_name,
    law_config_is_fieldwise,
    law_dev_name_buffer_is_bytewise,
    TargetConfig,
};
use crate::driver::sysdata::{feature_on, show_flag, store_flag, with_feature, SysdataFeature};
use crate::driver::target::{has_device, NetconsoleTarget};
use crate::error::{Error, EBUSY, EINVAL};
use crate::net::ip::IpAddr;
use crate::net::mac::{law_mac_line_round_trip, mac_of_text, text_of_mac, MacAddr};
use crate::net::netpoll::IFNAMSIZ;

verus! {

/// What becomes of a value that is stored: an enabled target refuses every value, any other
/// refuses a text that denotes none.
pub open spec fn store_answer<T>(enabled: bool, parsed: Option<T>) -> Result<T, Error> {
    if enabled {
        Err(Error(EBUSY))
    } else {
        match parsed {
            Some(val) => Ok(val),
            None => Err(Error(EINVAL)),
        }
    }
}

/// The device name that a text stands for: as much as leaves room for a NUL, without the line
/// ends at its end.
pub open spec fn dev_name_of_text(page: Seq<u8>) -> Seq<u8> {
    trimmed(clipped(page))
}

impl NetconsoleTarget {
    /// The target differs from `before` in its configuration alone, which is `cfg`.
    pub open spec fn reconfigured(self, before: NetconsoleTarget, cfg: TargetConfig) -> bool {
        &&& self.config@ == cfg
        &&& self == NetconsoleTarget { config: self.config, ..before }
    }

    /// Shows whether the target is enabled.
    pub fn show_enabled(&self, page: &mut [u8; PAGE_SIZE]) -> (n: usize)
        ensures
            n == bool_line(self.enabled).len(),
            final(page)@ == overlay(old(page)@, bool_line(self.enabled)),
    {
        show_bool(self.enabled, page)
    }

    /// Shows whether the extended log format is used.
    pub fn show_extended(&self, page: &mut [u8; PAGE_SIZE]) -> (n: usize)
        ensures
            n == bool_line(self.config.extended).len(),
            final(page)@ == overlay(old(page)@, bool_line(self.config.extended)),
    {
        show_bool(self.config.extended, page)
    }

    /// Stores whether the extended log format is used.
    pub fn store_extended(&mut self, page: &[u8]) -> (r: Result<(), Error>)
        ensures
            match store_answer(old(self).enabled, bool_of_text(trimmed(page@))) {
                Ok(val) => r == Ok::<(), Error>(()) && final(self).reconfigured(
                    *old(self),
                    (TargetConfig { extended: val, ..old(self).config@ }),
                ),
                Err(e) => r == Err::<(), Error>(e) && *final(self) == *old(self),
            },
    {
        if self.enabled {
            return Err(Error(EBUSY));
        }
        match parse_bool(page) {
            Ok(val) => {
                self.config.extended = val;
                Ok(())
            },
            Err(e) => Err(e),
        }
    }

    /// Shows whether the kernel release is prepended.
    pub fn show_release(&self, page: &mut [u8; PAGE_SIZE]) -> (n: usize)
        ensures
            n == bool_line(self.config.release).len(),
            final(page)@ == overlay(old(page)@, bool_line(self.config.release)),
    {
        show_bool(self.config.release, page)
    }

    /// Stores whether the kernel release is prepended.
    pub fn store_release(&mut self, page: &[u8]) -> (r: Result<(), Error>)
        ensures
            match store_answer(old(self).enabled, bool_of_text(trimmed(page@))) {
                Ok(val) => r == Ok::<(), Error>(()) && final(self).reconfigured(
                    *old(self),
                    (TargetConfig { release: val, ..old(self).config@ }),
                ),
                Err(e) => r == Err::<(), Error>(e) && *final(self) == *old(self),
            },
    {
        if self.enabled {
            return Err(Error(EBUSY));
        }
        match parse_bool(page) {
            Ok(val) => {
                self.config.release = val;
                Ok(())
            },
            Err(e) => Err(e),
        }
    }

    /// Shows the device name.
    pub fn show_dev_name(&self, page: &mut [u8; PAGE_SIZE]) -> (n: usize)
        ensures
            n == c_text(self.config@.dev_name).len() + 1,
            final(page)@ == overlay(
                old(page)@,
                c_text(self.config@.dev_name).push('\n' as u8),
            ),
    {
        let len: usize = strlen(&self.config.dev_name);
        let name = &self.config.dev_name[0..len];
        assert(name@ =~= c_text(self.config@.dev_name));
        copy_line(page, name)
    }

    /// Stores the device name.
    pub fn store_dev_name(&mut self, page: &[u8]) -> (r: Result<(), Error>)
        ensures
            match store_answer(old(self).enabled, Some(dev_name_of_text(page@))) {
                Ok(name) => r == Ok::<(), Error>(()) && final(self).reconfigured(
                    *old(self),
                    (TargetConfig { dev_name: dev_name_buffer(name), ..old(self).config@ }),
                ),
                Err(e) => r == Err::<(), Error>(e) && *final(self) == *old(self),
            },
    {
        if self.enabled {
            return Err(Error(EBUSY));
        }
        let len: usize = if page.len() < IFNAMSIZ {
            page.len()
        } else {
            IFNAMSIZ - 1
        };
        let kept = &page[0..len];
        assert(kept@ =~= clipped(page@));
        let name = trim_newline(kept);
        proof {
            lemma_trimmed(kept@);
        }
        self.config.dev_name = fill_dev_name(name);
        Ok(())
    }

    /// Shows the local port.
    pub fn show_local_port(&self, page: &mut [u8; PAGE_SIZE]) -> (n: usize)
        ensures
            n == decimal(self.config.local_port as nat).len() + 1,
            final(page)@ == overlay(
                old(page)@,
                decimal(self.config.local_port as nat).push('\n' as u8),
            ),
    {
        show_u16(self.config.local_port, page)
    }

    /// Stores the local port.
    pub fn store_local_port(&mut self, page: &[u8]) -> (r: Result<(), Error>)
        ensures
            match store_answer(old(self).enabled, u16_text(trimmed(page@))) {
                Ok(val) => r == Ok::<(), Error>(()) && final(self).reconfigured(
                    *old(self),
                    (TargetConfig { local_port: val, ..old(self).config@ }),
                ),
                Err(e) => r == Err::<(), Error>(e) && *final(self) == *old(self),
            },
    {
        if self.enabled {
            return Err(Error(EBUSY));
        }
        match parse_u16(page) {
            Ok(val) => {
                self.config.local_port = val;
                Ok(())
            },
            Err(e) => Err(e),
        }
    }

    /// Shows the remote port.
    pub fn show_remote_port(&self, page: &mut [u8; PAGE_SIZE]) -> (n: usize)
        ensures
            n == decimal(self.config.remote_port as nat).len() + 1,
            final(page)@ == overlay(
                old(page)@,
                decimal(self.config.remote_port as nat).push('\n' as u8),
            ),
    {
        show_u16(self.config.remote_port, page)
    }

    /// Stores the remote port.
    pub fn store_remote_port(&mut self, page: &[u8]) -> (r: Result<(), Error>)
        ensures
            match store_answer(old(self).enabled, u16_text(trimmed(page@))) {
                Ok(val) => r == Ok::<(), Error>(()) && final(self).reconfigured(
                    *old(self),
                    (TargetConfig { remote_port: val, ..old(self).config@ }),
                ),
                Err(e) => r == Err::<(), Error>(e) && *final(self) == *old(self),
            },
    {
        if self.enabled {
            return Err(Error(EBUSY));
        }
        match parse_u16(page) {
            Ok(val) => {
                self.config.remote_port = val;
                Ok(())
            },
            Err(e) => Err(e),
        }
    }

    /// Shows the local address. `format` gives its text.
    pub fn show_local_ip<F: FnOnce(IpAddr) -> Vec<u8>>(
        &self,
        format: F,
        page: &mut [u8; PAGE_SIZE],
    ) -> (n: usize)
        requires
            call_requires(format, (self.config.local_ip,)),
            forall|text: Vec<u8>|
                call_ensures(format, (self.config.local_ip,), text) ==> text@.len() < PAGE_SIZE,
        ensures
            exists|text: Vec<u8>| #[trigger]
                call_ensures(format, (self.config.local_ip,), text) && n == text@.len() + 1
                    && final(page)@ == overlay(old(page)@, text@.push('\n' as u8)),
    {
        let text: Vec<u8> = format(self.config.local_ip);
        copy_line(page, text.as_slice())
    }

    /// Stores the local address, given what its text denotes. An enabled target refuses it.
    pub fn set_local_ip(&mut self, parsed: Result<IpAddr, Error>) -> (r: Result<(), Error>)
        ensures
            old(self).enabled ==> r == Err::<(), Error>(Error(EBUSY)) && *final(self) == *old(self),
            !old(self).enabled ==> match parsed {
                Ok(ip) => r == Ok::<(), Error>(()) && final(self).reconfigured(
                    *old(self),
                    (TargetConfig { local_ip: ip@, ..old(self).config@ }),
                ),
                Err(e) => r == Err::<(), Error>(e) && *final(self) == *old(self),
            },
    {
        if self.enabled {
            return Err(Error(EBUSY));
        }
        match parsed {
            Ok(ip) => {
                self.config.local_ip = ip;
                Ok(())
            },
            Err(e) => Err(e),
        }
    }

    /// Stores the local address. `parse` is asked what the text denotes, unless the target is
    /// enabled.
    pub fn store_local_ip<F: FnOnce(&[u8]) -> Result<IpAddr, Error>>(
        &mut self,
        page: &[u8],
        parse: F,
    ) -> (r: Result<(), Error>)
        requires
            call_requires(parse, (page,)),
        ensures
            old(self).enabled ==> r == Err::<(), Error>(Error(EBUSY)) && *final(self) == *old(self),
            !old(self).enabled ==> exists|parsed: Result<IpAddr, Error>| #[trigger]
                call_ensures(parse, (page,), parsed) && match parsed {
                    Ok(ip) => r == Ok::<(), Error>(()) && final(self).reconfigured(
                        *old(self),
                        (TargetConfig { local_ip: ip@, ..old(self).config@ }),
                    ),
                    Err(e) => r == Err::<(), Error>(e) && *final(self) == *old(self),
                },
    {
        if self.enabled {
            return Err(Error(EBUSY));
        }
        let parsed: Result<IpAddr, Error> = parse(page);
        self.set_local_ip(parsed)
    }

    /// Shows the remote address. `format` gives its text.
    pub fn show_remote_ip<F: FnOnce(IpAddr) -> Vec<u8>>(
        &self,
        format: F,
        page: &mut [u8; PAGE_SIZE],
    ) -> (n: usize)
        requires
            call_requires(format, (self.config.remote_ip,)),
            forall|text: Vec<u8>|
                call_ensures(format, (self.config.remote_ip,), text) ==> text@.len() < PAGE_SIZE,
        ensures
            exists|text: Vec<u8>| #[trigger]
                call_ensures(format, (self.config.remote_ip,), text) && n == text@.len() + 1
                    && final(page)@ == overlay(old(page)@, text@.push('\n' as u8)),
    {
        let text: Vec<u8> = format(self.config.remote_ip);
        copy_line(page, text.as_slice())
    }

    /// Stores the remote address, given what its text denotes. An enabled target refuses it.
    pub fn set_remote_ip(&mut self, parsed: Result<IpAddr, Error>) -> (r: Result<(), Error>)
        ensures
            old(self).enabled ==> r == Err::<(), Error>(Error(EBUSY)) && *final(self) == *old(self),
            !old(self).enabled ==> match parsed {
                Ok(ip) => r == Ok::<(), Error>(()) && final(self).reconfigured(
                    *old(self),
                    (TargetConfig { remote_ip: ip@, ..old(self).config@ }),
                ),
                Err(e) => r == Err::<(), Error>(e) && *final(self) == *old(self),
            },
    {
        if self.enabled {
            return Err(Error(EBUSY));
        }
        match parsed {
            Ok(ip) => {
                self.config.remote_ip = ip;
                Ok(())
            },
            Err(e) => Err(e),
        }
    }

    /// Stores the remote address. `parse` is asked what the text denotes, unless the target is
    /// enabled.
    pub fn store_remote_ip<F: FnOnce(&[u8]) -> Result<IpAddr, Error>>(
        &mut self,
        page: &[u8],
        parse: F,
    ) -> (r: Result<(), Error>)
        requires
            call_requires(parse, (page,)),
        ensures
            old(self).enabled ==> r == Err::<(), Error>(Error(EBUSY)) && *final(self) == *old(self),
            !old(self).enabled ==> exists|parsed: Result<IpAddr, Error>| #[trigger]
                call_ensures(parse, (page,), parsed) && match parsed {
                    Ok(ip) => r == Ok::<(), Error>(()) && final(self).reconfigured(
                        *old(self),
                        (TargetConfig { remote_ip: ip@, ..old(self).config@ }),
                    ),
                    Err(e) => r == Err::<(), Error>(e) && *final(self) == *old(self),
                },
    {
        if self.enabled {
            return Err(Error(EBUSY));
        }
        let parsed: Result<IpAddr, Error> = parse(page);
        self.set_remote_ip(parsed)
    }

    /// Shows the remote MAC address.
    pub fn show_remote_mac(&self, page: &mut [u8; PAGE_SIZE]) -> (n: usize)
        ensures
            n == 18,
            final(page)@ == overlay(
                old(page)@,
                text_of_mac(self.config@.remote_mac).push('\n' as u8),
            ),
    {
        let len: usize = self.config.remote_mac.format_into(page);
        page[len] = '\n' as u8;
        assert(page@ =~= overlay(
            old(page)@,
            text_of_mac(self.config@.remote_mac).push('\n' as u8),
        ));
        len + 1
    }

    /// Stores the remote MAC address.
    pub fn store_remote_mac(&mut self, page: &[u8]) -> (r: Result<(), Error>)
        ensures
            match store_answer(old(self).enabled, mac_of_text(trimmed(page@))) {
                Ok(mac) => r == Ok::<(), Error>(()) && final(self).reconfigured(
                    *old(self),
                    (TargetConfig { remote_mac: mac, ..old(self).config@ }),
                ),
                Err(e) => r == Err::<(), Error>(e) && *final(self) == *old(self),
            },
    {
        if self.enabled {
            return Err(Error(EBUSY));
        }
        match MacAddr::parse_ascii(page) {
            Ok(mac) => {
                self.config.remote_mac = mac;
                Ok(())
            },
            Err(e) => Err(e),
        }
    }

    /// Shows the number of messages that could not be sent.
    pub fn show_transmit_errors(&self, page: &mut [u8; PAGE_SIZE]) -> (n: usize)
        ensures
            n == decimal(self.xmit_errors as nat).len() + 1,
            final(page)@ == overlay(
                old(page)@,
                decimal(self.xmit_errors as nat).push('\n' as u8),
            ),
    {
        proof {
            lemma_decimal_len(self.xmit_errors as nat);
        }
        let mut buf: [u8; 32] = [0u8; 32];
        let text = format_u64(&mut buf, self.xmit_errors);
        copy_line(page, text)
    }

    /// Shows whether a sysdata feature is on.
    pub fn show_sysdata(&self, feature: SysdataFeature, page: &mut [u8; PAGE_SIZE]) -> (n: usize)
        ensures
            n == bool_line(feature_on(self.sysdata_fields, feature)).len(),
            final(page)@ == overlay(
                old(page)@,
                bool_line(feature_on(self.sysdata_fields, feature)),
            ),
    {
        show_flag(self.sysdata_fields, feature, page)
    }

    /// Turns a sysdata feature on or off, of an enabled target too.
    pub fn store_sysdata(&mut self, feature: SysdataFeature, page: &[u8]) -> (r: Result<(), Error>)
        ensures
            match bool_of_text(trimmed(page@)) {
                Some(on) => r == Ok::<(), Error>(()) && *final(self) == (NetconsoleTarget {
                    sysdata_fields: with_feature(old(self).sysdata_fields, feature, on),
                    ..*old(self)
                }),
                None => r == Err::<(), Error>(Error(EINVAL)) && *final(self) == *old(self),
            },
    {
        store_flag(&mut self.sysdata_fields, feature, page)
    }
}

/// Shows a 16-bit number on a page; returns the number of bytes written.
fn show_u16(val: u16, page: &mut [u8; PAGE_SIZE]) -> (n: usize)
    ensures
        n == decimal(val as nat).len() + 1,
        final(page)@ == overlay(old(page)@, decimal(val as nat).push('\n' as u8)),
{
    proof {
        lemma_decimal_len(val as nat);
    }
    let mut buf: [u8; 16] = [0u8; 16];
    let text = format_u16(&mut buf, val);
    copy_line(page, text)
}

/// Storing what an attribute shows leaves the configuration of a disabled target as it was.
pub proof fn law_shown_attributes_restore(cfg: TargetConfig)
    requires
        cfg.remote_mac.len() == 6,
    ensures
        store_answer(false, bool_of_text(trimmed(bool_line(cfg.extended)))) == Ok::<bool, Error>(
            cfg.extended,
        ),
        store_answer(false, bool_of_text(trimmed(bool_line(cfg.release)))) == Ok::<bool, Error>(
            cfg.release,
        ),
        store_answer(
            false,
            u16_text(trimmed(decimal(cfg.local_port as nat).push('\n' as u8))),
        ) == Ok::<u16, Error>(cfg.local_port),
        store_answer(
            false,
            u16_text(trimmed(decimal(cfg.remote_port as nat).push('\n' as u8))),
        ) == Ok::<u16, Error>(cfg.remote_port),
        store_answer(
            false,
            mac_of_text(trimmed(text_of_mac(cfg.remote_mac).push('\n' as u8))),
        ) == Ok::<Seq<u8>, Error>(cfg.remote_mac),
{
    law_bool_round_trip(cfg.extended);
    law_bool_round_trip(cfg.release);
    law_u16_line_round_trip(cfg.local_port);
    law_u16_line_round_trip(cfg.remote_port);
    law_mac_line_round_trip(cfg.remote_mac);
}

/// A stored device name without a NUL is shown as it was stored: as much of it as leaves room for
/// a NUL, without the line ends at its end. Storing what is shown changes nothing.
pub proof fn law_dev_name_shown(page: Seq<u8>)
    requires
        no_nul(page),
    ensures
        ({
            let name = dev_name_of_text(page);
            let shown = c_text(dev_name_buffer(name));
            &&& shown == name
            &&& dev_name_of_text(shown.push('\n' as u8)) == name
        }),
{
    let kept = clipped(page);
    let name = dev_name_of_text(page);
    lemma_trimmed(kept);
    let buf = dev_name_buffer(name);
    assert forall|i: int| 0 <= i < name.len() implies #[trigger] buf[i] != 0 by {
        assert(buf[i] == name[i]);
        assert(name[i] == kept[i]);
        assert(kept[i] == page[i]);
    }
    lemma_until_unique(buf, 0, name.len() as int);
    assert(c_text(buf) =~= name);
    let line = name.push('\n' as u8);
    law_trim_idempotent(kept);
    if line.len() < IFNAMSIZ {
        law_trim_ignores_newline(name);
    } else {
        assert(line.take(IFNAMSIZ - 1) =~= name);
    }
}

/// A stored device name leaves room for a NUL, so that enabling does not fail for it.
pub proof fn law_stored_name_has_device(cfg: TargetConfig, page: Seq<u8>)
    requires
        cfg.dev_name == dev_name_buffer(dev_name_of_text(page)),
    ensures
        has_device(cfg),
{
    let name = dev_name_of_text(page);
    lemma_trimmed(clipped(page));
    lemma_until(cfg.dev_name, 0);
    assert(cfg.dev_name[name.len() as int] == 0);
}

/// A page that shows a line: the line stands at its beginning, the rest is as it was.
pub open spec fn shows(before: Seq<u8>, after: Seq<u8>, line: Seq<u8>) -> bool {
    &&& after == overlay(before, line)
    &&& after.len() == before.len()
    &&& after.take(line.len() as int) == line
    &&& after.skip(line.len() as int) == before.skip(line.len() as int)
}

/// A line that is written over the beginning of a page that has room for it is shown there.
proof fn lemma_overlay_shows(before: Seq<u8>, line: Seq<u8>)
    requires
        line.len() <= before.len(),
    ensures
        shows(before, overlay(before, line), line),
{
    let after = overlay(before, line);
    assert(after.take(line.len() as int) =~= line);
    assert(after.skip(line.len() as int) =~= before.skip(line.len() as int));
}

/// The line that shows a port.
pub open spec fn port_line(port: u16) -> Seq<u8> {
    decimal(port as nat).push('\n' as u8)
}

/// A stored local port is shown in decimal; what the remote port shows stays as it was.
pub proof fn law_stored_local_port_is_shown(
    before: NetconsoleTarget,
    after: NetconsoleTarget,
    text: Seq<u8>,
    port: u16,
    page: Seq<u8>,
)
    requires
        store_answer(before.enabled, u16_text(trimmed(text))) == Ok::<u16, Error>(port),
        after.reconfigured(before, (TargetConfig { local_port: port, ..before.config@ })),
        page.len() == PAGE_SIZE,
    ensures
        shows(
            page,
            overlay(page, decimal(after.config.local_port as nat).push('\n' as u8)),
            port_line(port),
        ),
        overlay(page, decimal(after.config.remote_port as nat).push('\n' as u8)) == overlay(
            page,
            decimal(before.config.remote_port as nat).push('\n' as u8),
        ),
{
    lemma_decimal_len(port as nat);
    lemma_overlay_shows(page, port_line(port));
    assert(after.config@.local_port == port);
    assert(after.config@.remote_port == before.config@.remote_port);
}

/// A stored remote port is shown in decimal; what the local port shows stays as it was.
pub proof fn law_stored_remote_port_is_shown(
    before: NetconsoleTarget,
    after: NetconsoleTarget,
    text: Seq<u8>,
    port: u16,
    page: Seq<u8>,
)
    requires
        store_answer(before.enabled, u16_text(trimmed(text))) == Ok::<u16, Error>(port),
        after.reconfigured(before, (TargetConfig { remote_port: port, ..before.config@ })),
        page.len() == PAGE_SIZE,
    ensures
        shows(
            page,
            overlay(page, decimal(after.config.remote_port as nat).push('\n' as u8)),
            port_line(port),
        ),
        overlay(page, decimal(after.config.local_port as nat).push('\n' as u8)) == overlay(
            page,
            decimal(before.config.local_port as nat).push('\n' as u8),
        ),
{
    lemma_decimal_len(port as nat);
    lemma_overlay_shows(page, port_line(port));
    assert(after.config@.remote_port == port);
    assert(after.config@.local_port == before.config@.local_port);
}

/// A stored MAC address is shown in lower case with colons.
pub proof fn law_stored_mac_is_shown(
    before: NetconsoleTarget,
    after: NetconsoleTarget,
    text: Seq<u8>,
    mac: Seq<u8>,
    page: Seq<u8>,
)
    requires
        store_answer(before.enabled, mac_of_text(trimmed(text))) == Ok::<Seq<u8>, Error>(mac),
        after.reconfigured(before, (TargetConfig { remote_mac: mac, ..before.config@ })),
        page.len() == PAGE_SIZE,
    ensures
        shows(
            page,
            overlay(page, text_of_mac(after.config@.remote_mac).push('\n' as u8)),
            text_of_mac(mac).push('\n' as u8),
        ),
{
    lemma_overlay_shows(page, text_of_mac(mac).push('\n' as u8));
}

/// Stored log format flags are shown; storing one leaves what the other shows.
pub proof fn law_stored_flags_are_shown(
    before: NetconsoleTarget,
    after: NetconsoleTarget,
    text: Seq<u8>,
    val: bool,
)
    requires
        store_answer(before.enabled, bool_of_text(trimmed(text))) == Ok::<bool, Error>(val),
    ensures
        after.reconfigured(before, (TargetConfig { extended: val, ..before.config@ }))
            ==> bool_line(after.config.extended) == bool_line(val) && bool_line(
            after.config.release,
        ) == bool_line(before.config.release),
        after.reconfigured(before, (TargetConfig { release: val, ..before.config@ })) ==> bool_line(
            after.config.release,
        ) == bool_line(val) && bool_line(after.config.extended) == bool_line(
            before.config.extended,
        ),
{
    assert(after.config@.extended == after.config.extended);
    assert(after.config@.release == after.config.release);
}

/// A device name of at most fifteen bytes that holds no NUL and does not end in a line end is kept
/// as it is given, with or without a line feed behind it: the buffer holds the name and NULs, and
/// the name is what is shown.
pub proof fn law_dev_name_is_kept(name: Seq<u8>)
    requires
        name.len() <= 15,
        forall|i: int| 0 <= i < name.len() ==> #[trigger] name[i] != 0,
        name.len() > 0 ==> name.last() != 10 && name.last() != 13,
    ensures
        dev_name_of_text(name) == name,
        dev_name_of_text(name.push(10u8)) == name,
        dev_name_buffer(dev_name_of_text(name)).len() == 16,
        forall|i: int|
            0 <= i < 16 ==> #[trigger] dev_name_buffer(dev_name_of_text(name))[i] == (if i
                < name.len() {
                name[i]
            } else {
                0
            }),
        c_text(dev_name_buffer(dev_name_of_text(name))) == name,
        c_text(dev_name_buffer(dev_name_of_text(name.push(10u8)))) == name,
{
    let line = name.push(10u8);
    assert(clipped(name) == name);
    assert(trimmed(name) == name);
    if name.len() < 15 {
        assert(clipped(line) == line);
        law_trim_ignores_newline(name);
    } else {
        assert(clipped(line) =~= name);
    }
    law_dev_name_buffer_is_bytewise(name);
    let buf = dev_name_buffer(name);
    assert forall|i: int| 0 <= i < name.len() implies #[trigger] buf[i] != 0 by {
        assert(buf[i] == name[i]);
    }
    lemma_until_unique(buf, 0, name.len() as int);
    assert(c_text(buf) =~= name);
}

/// Of any text, the device name is a beginning of at most fifteen bytes. What of the first fifteen
/// bytes is left out is nothing but line ends, and the name ends in none.
pub proof fn law_dev_name_is_a_beginning(page: Seq<u8>)
    ensures
        ({
            let name = dev_name_of_text(page);
            &&& name.len() <= 15
            &&& name.len() <= page.len()
            &&& forall|i: int| 0 <= i < name.len() ==> #[trigger] name[i] == page[i]
            &&& forall|i: int|
                name.len() <= i < page.len() && i < 15 ==> (#[trigger] page[i] == 10 || page[i]
                    == 13)
            &&& name.len() > 0 ==> name.last() != 10 && name.last() != 13
        }),
{
    let kept = clipped(page);
    let name = dev_name_of_text(page);
    lemma_trimmed(kept);
    law_dev_name_buffer_is_bytewise(page);
    assert forall|i: int| 0 <= i < name.len() implies #[trigger] name[i] == page[i] by {
        assert(name[i] == kept[i]);
    }
    assert forall|i: int| name.len() <= i < page.len() && i < 15 implies (#[trigger] page[i] == 10
        || page[i] == 13) by {
        assert(kept[i] == page[i]);
        assert(is_eol(kept[i]));
    }
}

/// When a stored value is refused, and why: an enabled target is busy, -16; else a text that
/// denotes no value is invalid, -22; else the value is stored.
pub proof fn law_store_answers<T>(val: T)
    ensures
        store_answer(true, Some(val)) == Err::<T, Error>(Error(-16i32)),
        store_answer(true, None::<T>) == Err::<T, Error>(Error(-16i32)),
        store_answer(false, Some(val)) == Ok::<T, Error>(val),
        store_answer(false, None::<T>) == Err::<T, Error>(Error(-22i32)),
{
}

/// Storing an attribute of the configuration changes the configuration, field by field, and
/// nothing else of the target.
pub proof fn law_store_changes_the_configuration_only(
    after: NetconsoleTarget,
    before: NetconsoleTarget,
    cfg: TargetConfig,
)
    requires
        after.reconfigured(before, cfg),
    ensures
        after.config.extended == cfg.extended,
        after.config.release == cfg.release,
        after.config.dev_name@ == cfg.dev_name,
        after.config.local_port == cfg.local_port,
        after.config.remote_port == cfg.remote_port,
        after.config.local_ip@ == cfg.local_ip,
        after.config.remote_ip@ == cfg.remote_ip,
        after.config.remote_mac.0@ == cfg.remote_mac,
        after.enabled == before.enabled,
        after.netpoll == before.netpoll,
        after.xmit_errors == before.xmit_errors,
        after.userdata_cache == before.userdata_cache,
        after.sysdata_fields == before.sysdata_fields,
        after.msg_counter == before.msg_counter,
        after.userdata == before.userdata,
{
    law_config_is_fieldwise(after.config);
}

} // verus!
