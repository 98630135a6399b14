//! Sysdata: facts about the system that accompany every message of a target.
use vstd::prelude::*;
use crate::bytes::{
    ascii,
    ascii_bytes,
    c_text,
    lemma_until,
    lemma_until_unique,
    overlay,
    strlen,
    trimmed,
};
use crate::decimal::{
    decimal,
    digits_value,
    format_u32,
    lemma_decimal_len,
    lemma_decimal_value,
};
use crate::driver::attribute::{
    bool_line,
    bool_of_text,
    law_bool_round_trip,
    parse_bool,
    show_bool,
    PAGE_SIZE,
};
use crate::driver::entry::{entry_line, law_entry_line_is_whole, write_entry};
use crate::error::{Error, EINVAL};

verus! {

/// Feature flag: the number of the CPU.
pub const SYSDATA_CPU_NR: u32 = 1;

/// Feature flag: the name of the task.
pub const SYSDATA_TASKNAME: u32 = 2;

/// Feature flag: the kernel release.
pub const SYSDATA_RELEASE: u32 = 4;

/// Feature flag: the number of the message.
pub const SYSDATA_MSGID: u32 = 8;

/// Number of features.
pub const MAX_SYSDATA_ITEMS: usize = 4;

/// Size of the buffer that the facts are written to.
pub const SYSDATA_BUF_SIZE: usize = 1024;

/// A fact that can accompany a message.
#[derive(Clone, Copy, Debug, PartialEq, Eq, Structural)]
pub enum SysdataFeature {
    CpuNr,
    Taskname,
    Release,
    Msgid,
}

impl SysdataFeature {
    /// The flag of the feature.
    pub open spec fn flag(self) -> u32 {
        match self {
            SysdataFeature::CpuNr => SYSDATA_CPU_NR,
            SysdataFeature::Taskname => SYSDATA_TASKNAME,
            SysdataFeature::Release => SYSDATA_RELEASE,
            SysdataFeature::Msgid => SYSDATA_MSGID,
        }
    }

    /// The flag of the feature.
    pub fn bit(self) -> (r: u32)
        ensures
            r == self.flag(),
    {
        match self {
            SysdataFeature::CpuNr => SYSDATA_CPU_NR,
            SysdataFeature::Taskname => SYSDATA_TASKNAME,
            SysdataFeature::Release => SYSDATA_RELEASE,
            SysdataFeature::Msgid => SYSDATA_MSGID,
        }
    }
}

/// A feature is on.
pub open spec fn feature_on(fields: u32, feature: SysdataFeature) -> bool {
    fields & feature.flag() != 0
}

/// The flags after a feature was turned on or off.
pub open spec fn with_feature(fields: u32, feature: SysdataFeature, on: bool) -> u32 {
    if on {
        fields | feature.flag()
    } else {
        fields & !feature.flag()
    }
}

/// The flag of a feature reads back as it was set; every other flag stays as it was.
pub proof fn law_feature_read_back(
    fields: u32,
    feature: SysdataFeature,
    on: bool,
    other: SysdataFeature,
)
    ensures
        feature_on(with_feature(fields, feature, on), feature) == on,
        other != feature ==> feature_on(with_feature(fields, feature, on), other) == feature_on(
            fields,
            other,
        ),
{
    let b = feature.flag();
    let c = other.flag();
    assert(b == 1 || b == 2 || b == 4 || b == 8);
    assert(c == 1 || c == 2 || c == 4 || c == 8);
    assert((fields | b) & b != 0 && (fields & !b) & b == 0) by (bit_vector)
        requires
            b == 1 || b == 2 || b == 4 || b == 8,
    ;
    if other != feature {
        assert((fields | b) & c == fields & c && (fields & !b) & c == fields & c) by (bit_vector)
            requires
                b == 1 || b == 2 || b == 4 || b == 8,
                c == 1 || c == 2 || c == 4 || c == 8,
                b != c,
        ;
    }
}

/// No feature is on where there is no flag.
pub proof fn lemma_no_feature(feature: SysdataFeature)
    ensures
        !feature_on(0, feature),
{
    let b = feature.flag();
    assert(0u32 & b == 0) by (bit_vector);
}

/// Shows whether a feature is on; returns the number of bytes written.
pub fn show_flag(fields: u32, feature: SysdataFeature, page: &mut [u8; PAGE_SIZE]) -> (n: usize)
    ensures
        n == 2,
        final(page)@ == overlay(old(page)@, bool_line(feature_on(fields, feature))),
{
    show_bool(fields & feature.bit() != 0, page)
}

/// Turns a feature on or off.
pub fn store_flag(fields: &mut u32, feature: SysdataFeature, page: &[u8]) -> (r: Result<(), Error>)
    ensures
        match bool_of_text(trimmed(page@)) {
            Some(on) => r == Ok::<(), Error>(()) && *final(fields) == with_feature(
                *old(fields),
                feature,
                on,
            ),
            None => r == Err::<(), Error>(Error(EINVAL)) && *final(fields) == *old(fields),
        },
{
    match parse_bool(page) {
        Ok(on) => {
            if on {
                *fields = *fields | feature.bit();
            } else {
                *fields = *fields & !feature.bit();
            }
            Ok(())
        },
        Err(e) => Err(e),
    }
}

/// What a feature shows, stored, leaves every feature as it was.
pub proof fn law_shown_feature_restores(fields: u32, feature: SysdataFeature, other: SysdataFeature)
    ensures
        bool_of_text(trimmed(bool_line(feature_on(fields, feature)))) == Some(
            feature_on(fields, feature),
        ),
        feature_on(with_feature(fields, feature, feature_on(fields, feature)), other) == feature_on(
            fields,
            other,
        ),
{
    law_bool_round_trip(feature_on(fields, feature));
    law_feature_read_back(fields, feature, feature_on(fields, feature), other);
}

/// What the system says of itself while a message is sent.
#[derive(Clone, Copy, Debug)]
pub struct SystemInfo {
    /// Number of the current CPU.
    pub cpu: u32,
    /// Name of the current task, up to its first NUL.
    pub comm: [u8; 16],
    /// Kernel release, up to its first NUL.
    pub release: [u8; 65],
}

/// What the system says of itself, as mathematical values.
pub struct SystemFacts {
    pub cpu: u32,
    pub comm: Seq<u8>,
    pub release: Seq<u8>,
}

impl View for SystemInfo {
    type V = SystemFacts;

    open spec fn view(&self) -> SystemFacts {
        SystemFacts { cpu: self.cpu, comm: c_text(self.comm@), release: c_text(self.release@) }
    }
}

/// The line of a feature.
pub open spec fn feature_line(feature: SysdataFeature, facts: SystemFacts, msgid: u32) -> Seq<u8> {
    match feature {
        SysdataFeature::CpuNr => entry_line(ascii("cpu"@), decimal(facts.cpu as nat)),
        SysdataFeature::Taskname => entry_line(ascii("taskname"@), facts.comm),
        SysdataFeature::Release => entry_line(ascii("release"@), facts.release),
        SysdataFeature::Msgid => entry_line(ascii("msgid"@), decimal(msgid as nat)),
    }
}

/// The text after a feature's turn: its line is appended where the feature is on and the line
/// fits.
pub open spec fn with_line(
    text: Seq<u8>,
    fields: u32,
    feature: SysdataFeature,
    facts: SystemFacts,
    msgid: u32,
    size: nat,
) -> Seq<u8> {
    let line = feature_line(feature, facts, msgid);
    if feature_on(fields, feature) && text.len() + line.len() <= size {
        text + line
    } else {
        text
    }
}

/// What accompanies a message, in a buffer of `size` bytes.
pub open spec fn sysdata_text(fields: u32, facts: SystemFacts, msgid: u32, size: nat) -> Seq<u8> {
    let t0 = Seq::<u8>::empty();
    let t1 = with_line(t0, fields, SysdataFeature::CpuNr, facts, msgid, size);
    let t2 = with_line(t1, fields, SysdataFeature::Taskname, facts, msgid, size);
    let t3 = with_line(t2, fields, SysdataFeature::Release, facts, msgid, size);
    with_line(t3, fields, SysdataFeature::Msgid, facts, msgid, size)
}

/// The line of a feature where it is on, nothing where it is off.
pub open spec fn line_if_on(
    fields: u32,
    feature: SysdataFeature,
    facts: SystemFacts,
    msgid: u32,
) -> Seq<u8> {
    if feature_on(fields, feature) {
        feature_line(feature, facts, msgid)
    } else {
        Seq::<u8>::empty()
    }
}

/// In the buffer that messages use, the line of every feature that is on finds room.
pub proof fn law_sysdata_fits(fields: u32, info: SystemInfo, msgid: u32)
    ensures
        sysdata_text(fields, info@, msgid, SYSDATA_BUF_SIZE as nat) == line_if_on(
            fields,
            SysdataFeature::CpuNr,
            info@,
            msgid,
        ) + line_if_on(fields, SysdataFeature::Taskname, info@, msgid) + line_if_on(
            fields,
            SysdataFeature::Release,
            info@,
            msgid,
        ) + line_if_on(fields, SysdataFeature::Msgid, info@, msgid),
{
    lemma_line_len(info, msgid);
    let t0 = Seq::<u8>::empty();
    let a = line_if_on(fields, SysdataFeature::CpuNr, info@, msgid);
    let b = line_if_on(fields, SysdataFeature::Taskname, info@, msgid);
    let c = line_if_on(fields, SysdataFeature::Release, info@, msgid);
    let d = line_if_on(fields, SysdataFeature::Msgid, info@, msgid);
    let size = SYSDATA_BUF_SIZE as nat;
    assert(with_line(t0, fields, SysdataFeature::CpuNr, info@, msgid, size) =~= a);
    assert(with_line(a, fields, SysdataFeature::Taskname, info@, msgid, size) =~= a + b);
    assert(with_line(a + b, fields, SysdataFeature::Release, info@, msgid, size) =~= a + b + c);
    assert(with_line(a + b + c, fields, SysdataFeature::Msgid, info@, msgid, size) =~= a + b + c + d);
}

/// No line is longer than a quarter of the buffer.
proof fn lemma_line_len(info: SystemInfo, msgid: u32)
    ensures
        forall|feature: SysdataFeature|
            (#[trigger] feature_line(feature, info@, msgid)).len() <= 256,
{
    lemma_decimal_len(info.cpu as nat);
    lemma_decimal_len(msgid as nat);
    lemma_until(info.comm@, 0);
    lemma_until(info.release@, 0);
    reveal_strlit("cpu");
    reveal_strlit("taskname");
    reveal_strlit("release");
    reveal_strlit("msgid");
}

/// Writes the line of an entry with a number over the beginning of a buffer, where it fits;
/// returns the number of bytes written, zero where it does not fit.
pub fn format_sysdata_u32(buf: &mut [u8], key: &[u8], val: u32) -> (n: usize)
    ensures
        ({
            let line = entry_line(key@, decimal(val as nat));
            if line.len() <= old(buf)@.len() {
                n == line.len() && final(buf)@ == overlay(old(buf)@, line)
            } else {
                n == 0 && final(buf)@ == old(buf)@
            }
        }),
{
    let mut tmp: [u8; 16] = [0u8; 16];
    let text = format_u32(&mut tmp, val);
    write_entry(buf, key, text)
}

/// Writes the line of an entry with a text over the beginning of a buffer, where it fits; returns
/// the number of bytes written, zero where it does not fit.
pub fn format_sysdata_bytes(buf: &mut [u8], key: &[u8], val: &[u8]) -> (n: usize)
    ensures
        ({
            let line = entry_line(key@, val@);
            if line.len() <= old(buf)@.len() {
                n == line.len() && final(buf)@ == overlay(old(buf)@, line)
            } else {
                n == 0 && final(buf)@ == old(buf)@
            }
        }),
{
    write_entry(buf, key, val)
}

/// Writes the line of a feature behind the `offset` bytes of `text`, where it fits; returns the
/// number of bytes that the buffer then holds.
fn write_feature(
    buf: &mut [u8],
    offset: usize,
    Ghost(before): Ghost<Seq<u8>>,
    Ghost(text): Ghost<Seq<u8>>,
    feature: SysdataFeature,
    info: &SystemInfo,
    msgid: u32,
) -> (n: usize)
    requires
        offset == text.len() <= before.len(),
        old(buf)@ == overlay(before, text),
    ensures
        ({
            let line = feature_line(feature, info@, msgid);
            let after = if text.len() + line.len() <= before.len() {
                text + line
            } else {
                text
            };
            n == after.len() <= before.len() && final(buf)@ == overlay(before, after)
        }),
{
    proof {
        reveal_strlit("cpu");
        reveal_strlit("taskname");
        reveal_strlit("release");
        reveal_strlit("msgid");
    }
    let size: usize = buf.len();
    assert(size == before.len());
    let n: usize;
    {
        let (_, rest) = buf.split_at_mut(offset);
        n = match feature {
            SysdataFeature::CpuNr => format_sysdata_u32(rest, ascii_bytes("cpu"), info.cpu),
            SysdataFeature::Taskname => {
                let len: usize = strlen(&info.comm);
                assert(info.comm@.subrange(0, len as int) =~= info@.comm);
                format_sysdata_bytes(rest, ascii_bytes("taskname"), &info.comm[0..len])
            },
            SysdataFeature::Release => {
                let len: usize = strlen(&info.release);
                assert(info.release@.subrange(0, len as int) =~= info@.release);
                format_sysdata_bytes(rest, ascii_bytes("release"), &info.release[0..len])
            },
            SysdataFeature::Msgid => format_sysdata_u32(rest, ascii_bytes("msgid"), msgid),
        };
    }
    proof {
        let line = feature_line(feature, info@, msgid);
        if text.len() + line.len() <= before.len() {
            assert(buf@ =~= overlay(before, text + line));
        } else {
            assert(buf@ =~= overlay(before, text));
        }
    }
    offset + n
}

/// Writes what accompanies a message over the beginning of a buffer; returns the number of bytes
/// written. `msgid` is the number of the message.
pub fn write_sysdata(fields: u32, info: &SystemInfo, msgid: u32, buf: &mut [u8]) -> (n: usize)
    ensures
        ({
            let text = sysdata_text(fields, info@, msgid, old(buf)@.len());
            n == text.len() <= old(buf)@.len() && final(buf)@ == overlay(old(buf)@, text)
        }),
{
    let ghost before = buf@;
    let ghost size = buf@.len();
    let ghost t0 = Seq::<u8>::empty();
    let ghost t1 = with_line(t0, fields, SysdataFeature::CpuNr, info@, msgid, size);
    let ghost t2 = with_line(t1, fields, SysdataFeature::Taskname, info@, msgid, size);
    let ghost t3 = with_line(t2, fields, SysdataFeature::Release, info@, msgid, size);
    assert(overlay(before, t0) =~= before);
    let mut offset: usize = 0;
    if fields & SYSDATA_CPU_NR != 0 {
        offset = write_feature(buf, offset, Ghost(before), Ghost(t0), SysdataFeature::CpuNr, info, msgid);
    }
    assert(offset == t1.len() && buf@ == overlay(before, t1));
    if fields & SYSDATA_TASKNAME != 0 {
        offset = write_feature(
            buf,
            offset,
            Ghost(before),
            Ghost(t1),
            SysdataFeature::Taskname,
            info,
            msgid,
        );
    }
    assert(offset == t2.len() && buf@ == overlay(before, t2));
    if fields & SYSDATA_RELEASE != 0 {
        offset = write_feature(
            buf,
            offset,
            Ghost(before),
            Ghost(t2),
            SysdataFeature::Release,
            info,
            msgid,
        );
    }
    assert(offset == t3.len() && buf@ == overlay(before, t3));
    if fields & SYSDATA_MSGID != 0 {
        offset = write_feature(buf, offset, Ghost(before), Ghost(t3), SysdataFeature::Msgid, info, msgid);
    }
    offset
}

/// Which bit stands for which feature; turning a feature on or off changes its bit and no other.
pub proof fn law_feature_bits(fields: u32)
    ensures
        feature_on(fields, SysdataFeature::CpuNr) == (fields & 1 != 0),
        feature_on(fields, SysdataFeature::Taskname) == (fields & 2 != 0),
        feature_on(fields, SysdataFeature::Release) == (fields & 4 != 0),
        feature_on(fields, SysdataFeature::Msgid) == (fields & 8 != 0),
        with_feature(fields, SysdataFeature::CpuNr, true) == fields | 1,
        with_feature(fields, SysdataFeature::Taskname, true) == fields | 2,
        with_feature(fields, SysdataFeature::Release, true) == fields | 4,
        with_feature(fields, SysdataFeature::Msgid, true) == fields | 8,
        with_feature(fields, SysdataFeature::CpuNr, false) == fields & !1u32,
        with_feature(fields, SysdataFeature::Taskname, false) == fields & !2u32,
        with_feature(fields, SysdataFeature::Release, false) == fields & !4u32,
        with_feature(fields, SysdataFeature::Msgid, false) == fields & !8u32,
{
}

/// Each line holds its fact whole. The task name and the release are every byte in front of their
/// first NUL; the numbers are in decimal, and read back as they are.
pub proof fn law_lines_hold_their_facts(info: SystemInfo, msgid: u32, n: int, m: int)
    requires
        0 <= n <= 16,
        forall|i: int| 0 <= i < n ==> #[trigger] info.comm@[i] != 0,
        n < 16 ==> info.comm@[n] == 0,
        0 <= m <= 65,
        forall|i: int| 0 <= i < m ==> #[trigger] info.release@[i] != 0,
        m < 65 ==> info.release@[m] == 0,
    ensures
        feature_line(SysdataFeature::CpuNr, info@, msgid) == seq![32u8] + ascii("cpu"@) + seq![61u8]
            + decimal(info.cpu as nat) + seq![10u8],
        feature_line(SysdataFeature::Taskname, info@, msgid) == seq![32u8] + ascii("taskname"@)
            + seq![61u8] + info.comm@.take(n) + seq![10u8],
        feature_line(SysdataFeature::Release, info@, msgid) == seq![32u8] + ascii("release"@)
            + seq![61u8] + info.release@.take(m) + seq![10u8],
        feature_line(SysdataFeature::Msgid, info@, msgid) == seq![32u8] + ascii("msgid"@)
            + seq![61u8] + decimal(msgid as nat) + seq![10u8],
        digits_value(decimal(info.cpu as nat)) == info.cpu,
        digits_value(decimal(msgid as nat)) == msgid,
{
    lemma_until_unique(info.comm@, 0, n);
    lemma_until_unique(info.release@, 0, m);
    lemma_decimal_value(info.cpu as nat);
    lemma_decimal_value(msgid as nat);
    law_entry_line_is_whole(ascii("cpu"@), decimal(info.cpu as nat));
    law_entry_line_is_whole(ascii("taskname"@), info.comm@.take(n));
    law_entry_line_is_whole(ascii("release"@), info.release@.take(m));
    law_entry_line_is_whole(ascii("msgid"@), decimal(msgid as nat));
}

/// The facts are written in the order of their bits, each where its bit is set and its line finds
/// room behind those before it. A line without room is left out whole, and the next one is tried.
pub proof fn law_facts_in_order(fields: u32, facts: SystemFacts, msgid: u32, size: nat)
    ensures
        ({
            let cpu = feature_line(SysdataFeature::CpuNr, facts, msgid);
            let task = feature_line(SysdataFeature::Taskname, facts, msgid);
            let release = feature_line(SysdataFeature::Release, facts, msgid);
            let number = feature_line(SysdataFeature::Msgid, facts, msgid);
            let none = Seq::<u8>::empty();
            let t1 = if fields & 1 != 0 && cpu.len() <= size {
                cpu
            } else {
                none
            };
            let t2 = t1 + if fields & 2 != 0 && t1.len() + task.len() <= size {
                task
            } else {
                none
            };
            let t3 = t2 + if fields & 4 != 0 && t2.len() + release.len() <= size {
                release
            } else {
                none
            };
            let t4 = t3 + if fields & 8 != 0 && t3.len() + number.len() <= size {
                number
            } else {
                none
            };
            sysdata_text(fields, facts, msgid, size) == t4
        }),
{
    let none = Seq::<u8>::empty();
    assert forall|t: Seq<u8>| #[trigger] (t + none) == t by {
        assert(t + none =~= t);
    }
    let cpu = feature_line(SysdataFeature::CpuNr, facts, msgid);
    assert(none + cpu =~= cpu);
}

/// The text that is written to a buffer with room for it, on its bytes: the lines of the features
/// whose bits are set, one behind the other.
pub proof fn law_sysdata_bytes(fields: u32, info: SystemInfo, msgid: u32, n: int, m: int, buf: Seq<u8>)
    requires
        0 <= n <= 16,
        forall|i: int| 0 <= i < n ==> #[trigger] info.comm@[i] != 0,
        n < 16 ==> info.comm@[n] == 0,
        0 <= m <= 65,
        forall|i: int| 0 <= i < m ==> #[trigger] info.release@[i] != 0,
        m < 65 ==> info.release@[m] == 0,
        buf.len() >= 1024,
    ensures
        ({
            let text = (if fields & 1 != 0 {
                seq![32u8] + ascii("cpu"@) + seq![61u8] + decimal(info.cpu as nat) + seq![10u8]
            } else {
                Seq::<u8>::empty()
            }) + (if fields & 2 != 0 {
                seq![32u8] + ascii("taskname"@) + seq![61u8] + info.comm@.take(n) + seq![10u8]
            } else {
                Seq::<u8>::empty()
            }) + (if fields & 4 != 0 {
                seq![32u8] + ascii("release"@) + seq![61u8] + info.release@.take(m) + seq![10u8]
            } else {
                Seq::<u8>::empty()
            }) + (if fields & 8 != 0 {
                seq![32u8] + ascii("msgid"@) + seq![61u8] + decimal(msgid as nat) + seq![10u8]
            } else {
                Seq::<u8>::empty()
            });
            &&& sysdata_text(fields, info@, msgid, buf.len()) == text
            &&& overlay(buf, sysdata_text(fields, info@, msgid, buf.len())) == text + buf.skip(
                text.len() as int,
            )
        }),
{
    law_lines_hold_their_facts(info, msgid, n, m);
    law_facts_in_order(fields, info@, msgid, buf.len());
    lemma_line_len(info, msgid);
    let cpu = feature_line(SysdataFeature::CpuNr, info@, msgid);
    let task = feature_line(SysdataFeature::Taskname, info@, msgid);
    let release = feature_line(SysdataFeature::Release, info@, msgid);
    let number = feature_line(SysdataFeature::Msgid, info@, msgid);
    assert(cpu.len() <= 256 && task.len() <= 256 && release.len() <= 256 && number.len() <= 256);
}

} // verus!
