//! Byte layouts of what travels in control transfers. All numbers are little-endian.

use vstd::prelude::*;

verus! {

/// A 32-bit number as four bytes, the lowest first.
pub open spec fn le32(x: u32) -> Seq<u8> {
    seq![
        (x % 0x100) as u8,
        (x / 0x100 % 0x100) as u8,
        (x / 0x1_0000 % 0x100) as u8,
        (x / 0x100_0000) as u8,
    ]
}

/// The 32-bit number whose bytes start at `at`.
pub open spec fn un_le32(s: Seq<u8>, at: int) -> u32 {
    (s[at] + 0x100 * s[at + 1] + 0x1_0000 * s[at + 2] + 0x100_0000 * s[at + 3]) as u32
}

/// Reading the four bytes of a number, wherever they stand, gives the number.
pub proof fn le32_reads_back(s: Seq<u8>, at: int, x: u32)
    requires
        0 <= at,
        at + 4 <= s.len(),
        s.subrange(at, at + 4) == le32(x),
    ensures
        un_le32(s, at) == x,
{
    let t = s.subrange(at, at + 4);
    assert(t[0] == s[at] && t[1] == s[at + 1] && t[2] == s[at + 2] && t[3] == s[at + 3]);
}

proof fn split_le32(a: int, b: int, c: int, d: int)
    requires
        0 <= a < 0x100,
        0 <= b < 0x100,
        0 <= c < 0x100,
        0 <= d < 0x100,
    ensures
        ({
            let x = a + 0x100 * b + 0x1_0000 * c + 0x100_0000 * d;
            &&& 0 <= x <= 0xFFFF_FFFF
            &&& x % 0x100 == a
            &&& x / 0x100 % 0x100 == b
            &&& x / 0x1_0000 % 0x100 == c
            &&& x / 0x100_0000 == d
        }),
{
    let x = a + 0x100 * b + 0x1_0000 * c + 0x100_0000 * d;
    assert(x / 0x100 == b + 0x100 * c + 0x1_0000 * d);
    assert(x / 0x1_0000 == c + 0x100 * d);
}

/// The bytes of the number that four bytes stand for are those four bytes.
pub proof fn le32_writes_back(s: Seq<u8>, at: int)
    requires
        0 <= at,
        at + 4 <= s.len(),
    ensures
        le32(un_le32(s, at)) == s.subrange(at, at + 4),
{
    let (a, b, c, d) = (s[at] as int, s[at + 1] as int, s[at + 2] as int, s[at + 3] as int);
    let x = un_le32(s, at) as int;
    split_le32(a, b, c, d);
    assert(x == a + 0x100 * b + 0x1_0000 * c + 0x100_0000 * d);
    assert(le32(x as u32) =~= s.subrange(at, at + 4));
}

pub(crate) fn put_u32(out: &mut Vec<u8>, x: u32)
    ensures
        final(out)@ == old(out)@ + le32(x),
{
    out.push((x % 0x100) as u8);
    out.push((x / 0x100 % 0x100) as u8);
    out.push((x / 0x1_0000 % 0x100) as u8);
    out.push((x / 0x100_0000) as u8);
    assert(out@ =~= old(out)@ + le32(x));
}

pub(crate) fn get_u32(data: &[u8], at: usize) -> (x: u32)
    requires
        at + 4 <= data@.len(),
    ensures
        x == un_le32(data@, at as int),
{
    data[at] as u32 + 0x100 * (data[at + 1] as u32) + 0x1_0000 * (data[at + 2] as u32) + 0x100_0000
        * (data[at + 3] as u32)
}

/// Sent to a device to fix the byte order of what it sends.
#[derive(Debug, Clone, Copy, PartialEq, Eq, Structural)]
pub struct CandleHostConfig {
    pub byte_order: u32,
}

impl CandleHostConfig {
    pub open spec fn bytes(self) -> Seq<u8> {
        le32(self.byte_order)
    }
}

/// Sent to a device to start or reset a channel.
#[derive(Debug, Clone, Copy, PartialEq, Eq, Structural)]
pub struct CandleDeviceMode {
    pub mode: u32,
    pub flags: u32,
}

impl CandleDeviceMode {
    pub open spec fn bytes(self) -> Seq<u8> {
        le32(self.mode) + le32(self.flags)
    }
}

/// Sent to a device to set the bit timing of a channel.
#[derive(Debug, Clone, Copy, PartialEq, Eq, Structural)]
pub struct CandleBitTiming {
    pub prop_seg: u32,
    pub phase_seg1: u32,
    pub phase_seg2: u32,
    pub sjw: u32,
    pub brp: u32,
}

impl CandleBitTiming {
    pub open spec fn bytes(self) -> Seq<u8> {
        le32(self.prop_seg) + le32(self.phase_seg1) + le32(self.phase_seg2) + le32(self.sjw)
            + le32(self.brp)
    }

    /// The number of time quanta in one bit.
    pub open spec fn quanta(self) -> int {
        1 + self.prop_seg + self.phase_seg1 + self.phase_seg2
    }
}

/// What a device says of itself. It has `icount + 1` channels.
#[derive(Debug, Clone, Copy, PartialEq, Eq, Structural)]
pub struct CandleDeviceConfig {
    pub reserved1: u8,
    pub reserved2: u8,
    pub reserved3: u8,
    pub icount: u8,
    pub sw_version: u32,
    pub hw_version: u32,
}

impl CandleDeviceConfig {
    pub open spec fn zero() -> Self {
        CandleDeviceConfig {
            reserved1: 0,
            reserved2: 0,
            reserved3: 0,
            icount: 0,
            sw_version: 0,
            hw_version: 0,
        }
    }

    pub open spec fn bytes(self) -> Seq<u8> {
        seq![self.reserved1, self.reserved2, self.reserved3, self.icount] + le32(self.sw_version)
            + le32(self.hw_version)
    }

    /// The configuration that twelve bytes stand for.
    pub open spec fn of_bytes(s: Seq<u8>) -> Self {
        CandleDeviceConfig {
            reserved1: s[0],
            reserved2: s[1],
            reserved3: s[2],
            icount: s[3],
            sw_version: un_le32(s, 4),
            hw_version: un_le32(s, 8),
        }
    }
}

impl Default for CandleDeviceConfig {
    fn default() -> (c: Self)
        ensures
            c == CandleDeviceConfig::zero(),
    {
        CandleDeviceConfig {
            reserved1: 0,
            reserved2: 0,
            reserved3: 0,
            icount: 0,
            sw_version: 0,
            hw_version: 0,
        }
    }
}

/// The clock of a channel and the bounds on its bit timing.
#[derive(Debug, Clone, Copy, PartialEq, Eq, Structural)]
pub struct CandleCapability {
    pub feature: u32,
    pub fclk_can: u32,
    pub tseg1_min: u32,
    pub tseg1_max: u32,
    pub tseg2_min: u32,
    pub tseg2_max: u32,
    pub sjw_max: u32,
    pub brp_min: u32,
    pub brp_max: u32,
    pub brp_inc: u32,
}

impl CandleCapability {
    pub open spec fn zero() -> Self {
        CandleCapability {
            feature: 0,
            fclk_can: 0,
            tseg1_min: 0,
            tseg1_max: 0,
            tseg2_min: 0,
            tseg2_max: 0,
            sjw_max: 0,
            brp_min: 0,
            brp_max: 0,
            brp_inc: 0,
        }
    }

    pub open spec fn bytes(self) -> Seq<u8> {
        le32(self.feature) + le32(self.fclk_can) + le32(self.tseg1_min) + le32(self.tseg1_max)
            + le32(self.tseg2_min) + le32(self.tseg2_max) + le32(self.sjw_max) + le32(self.brp_min)
            + le32(self.brp_max) + le32(self.brp_inc)
    }

    /// The capability that forty bytes stand for.
    pub open spec fn of_bytes(s: Seq<u8>) -> Self {
        CandleCapability {
            feature: un_le32(s, 0),
            fclk_can: un_le32(s, 4),
            tseg1_min: un_le32(s, 8),
            tseg1_max: un_le32(s, 12),
            tseg2_min: un_le32(s, 16),
            tseg2_max: un_le32(s, 20),
            sjw_max: un_le32(s, 24),
            brp_min: un_le32(s, 28),
            brp_max: un_le32(s, 32),
            brp_inc: un_le32(s, 36),
        }
    }
}

impl Default for CandleCapability {
    fn default() -> (c: Self)
        ensures
            c == CandleCapability::zero(),
    {
        CandleCapability {
            feature: 0,
            fclk_can: 0,
            tseg1_min: 0,
            tseg1_max: 0,
            tseg2_min: 0,
            tseg2_max: 0,
            sjw_max: 0,
            brp_min: 0,
            brp_max: 0,
            brp_inc: 0,
        }
    }
}

/// The data stage of a control transfer: what is sent, or what the buffer to fill holds.
#[derive(Debug, Clone, Copy, PartialEq, Eq, Structural)]
pub enum ControlData {
    HostFormat(CandleHostConfig),
    Mode(CandleDeviceMode),
    Timing(CandleBitTiming),
    Config(CandleDeviceConfig),
    Capability(CandleCapability),
    Timestamp(u32),
}

impl ControlData {
    /// The bytes in the buffer.
    pub open spec fn bytes(self) -> Seq<u8> {
        match self {
            ControlData::HostFormat(d) => d.bytes(),
            ControlData::Mode(d) => d.bytes(),
            ControlData::Timing(d) => d.bytes(),
            ControlData::Config(d) => d.bytes(),
            ControlData::Capability(d) => d.bytes(),
            ControlData::Timestamp(t) => le32(t),
        }
    }

    /// The number of bytes in the buffer.
    pub open spec fn size(self) -> u16 {
        match self {
            ControlData::HostFormat(_) => 4,
            ControlData::Mode(_) => 8,
            ControlData::Timing(_) => 20,
            ControlData::Config(_) => 12,
            ControlData::Capability(_) => 40,
            ControlData::Timestamp(_) => 4,
        }
    }

    /// What stands there once the buffer holds `data`: what was to be sent stays as it was.
    pub open spec fn filled(self, data: Seq<u8>) -> Self {
        match self {
            ControlData::Config(_) => ControlData::Config(CandleDeviceConfig::of_bytes(data)),
            ControlData::Capability(_) => ControlData::Capability(CandleCapability::of_bytes(data)),
            ControlData::Timestamp(_) => ControlData::Timestamp(un_le32(data, 0)),
            _ => self,
        }
    }

    /// The number of bytes in the buffer.
    pub fn len(&self) -> (n: u16)
        ensures
            n == self.size(),
            n == self.bytes().len(),
    {
        match self {
            ControlData::HostFormat(_) => 4,
            ControlData::Mode(_) => 8,
            ControlData::Timing(_) => 20,
            ControlData::Config(_) => 12,
            ControlData::Capability(_) => 40,
            ControlData::Timestamp(_) => 4,
        }
    }

    /// The bytes in the buffer.
    pub fn to_bytes(&self) -> (out: Vec<u8>)
        ensures
            out@ == self.bytes(),
    {
        let mut out: Vec<u8> = Vec::new();
        match self {
            ControlData::HostFormat(d) => {
                put_u32(&mut out, d.byte_order);
            },
            ControlData::Mode(d) => {
                put_u32(&mut out, d.mode);
                put_u32(&mut out, d.flags);
            },
            ControlData::Timing(d) => {
                put_u32(&mut out, d.prop_seg);
                put_u32(&mut out, d.phase_seg1);
                put_u32(&mut out, d.phase_seg2);
                put_u32(&mut out, d.sjw);
                put_u32(&mut out, d.brp);
            },
            ControlData::Config(d) => {
                out.push(d.reserved1);
                out.push(d.reserved2);
                out.push(d.reserved3);
                out.push(d.icount);
                put_u32(&mut out, d.sw_version);
                put_u32(&mut out, d.hw_version);
            },
            ControlData::Capability(d) => {
                put_u32(&mut out, d.feature);
                put_u32(&mut out, d.fclk_can);
                put_u32(&mut out, d.tseg1_min);
                put_u32(&mut out, d.tseg1_max);
                put_u32(&mut out, d.tseg2_min);
                put_u32(&mut out, d.tseg2_max);
                put_u32(&mut out, d.sjw_max);
                put_u32(&mut out, d.brp_min);
                put_u32(&mut out, d.brp_max);
                put_u32(&mut out, d.brp_inc);
            },
            ControlData::Timestamp(t) => {
                put_u32(&mut out, *t);
            },
        }
        assert(out@ =~= self.bytes());
        out
    }

    /// What stands there once the buffer holds `data`.
    pub fn fill(&self, data: &[u8]) -> (d: Self)
        requires
            data@.len() == self.size(),
        ensures
            d == self.filled(data@),
    {
        match self {
            ControlData::Config(_) => ControlData::Config(
                CandleDeviceConfig {
                    reserved1: data[0],
                    reserved2: data[1],
                    reserved3: data[2],
                    icount: data[3],
                    sw_version: get_u32(data, 4),
                    hw_version: get_u32(data, 8),
                },
            ),
            ControlData::Capability(_) => ControlData::Capability(
                CandleCapability {
                    feature: get_u32(data, 0),
                    fclk_can: get_u32(data, 4),
                    tseg1_min: get_u32(data, 8),
                    tseg1_max: get_u32(data, 12),
                    tseg2_min: get_u32(data, 16),
                    tseg2_max: get_u32(data, 20),
                    sjw_max: get_u32(data, 24),
                    brp_min: get_u32(data, 28),
                    brp_max: get_u32(data, 32),
                    brp_inc: get_u32(data, 36),
                },
            ),
            ControlData::Timestamp(_) => ControlData::Timestamp(get_u32(data, 0)),
            _ => *self,
        }
    }
}

#[verifier::rlimit(50)]
proof fn capability_reads_back(d: CandleCapability)
    ensures
        d.bytes().len() == 40,
        CandleCapability::of_bytes(d.bytes()) == d,
{
    let s = d.bytes();
    assert(un_le32(s, 0) == d.feature) by {
        assert(s.subrange(0, 4) =~= le32(d.feature));
        le32_reads_back(s, 0, d.feature);
    }
    assert(un_le32(s, 4) == d.fclk_can) by {
        assert(s.subrange(4, 8) =~= le32(d.fclk_can));
        le32_reads_back(s, 4, d.fclk_can);
    }
    assert(un_le32(s, 8) == d.tseg1_min) by {
        assert(s.subrange(8, 12) =~= le32(d.tseg1_min));
        le32_reads_back(s, 8, d.tseg1_min);
    }
    assert(un_le32(s, 12) == d.tseg1_max) by {
        assert(s.subrange(12, 16) =~= le32(d.tseg1_max));
        le32_reads_back(s, 12, d.tseg1_max);
    }
    assert(un_le32(s, 16) == d.tseg2_min) by {
        assert(s.subrange(16, 20) =~= le32(d.tseg2_min));
        le32_reads_back(s, 16, d.tseg2_min);
    }
    assert(un_le32(s, 20) == d.tseg2_max) by {
        assert(s.subrange(20, 24) =~= le32(d.tseg2_max));
        le32_reads_back(s, 20, d.tseg2_max);
    }
    assert(un_le32(s, 24) == d.sjw_max) by {
        assert(s.subrange(24, 28) =~= le32(d.sjw_max));
        le32_reads_back(s, 24, d.sjw_max);
    }
    assert(un_le32(s, 28) == d.brp_min) by {
        assert(s.subrange(28, 32) =~= le32(d.brp_min));
        le32_reads_back(s, 28, d.brp_min);
    }
    assert(un_le32(s, 32) == d.brp_max) by {
        assert(s.subrange(32, 36) =~= le32(d.brp_max));
        le32_reads_back(s, 32, d.brp_max);
    }
    assert(un_le32(s, 36) == d.brp_inc) by {
        assert(s.subrange(36, 40) =~= le32(d.brp_inc));
        le32_reads_back(s, 36, d.brp_inc);
    }
}

/// A buffer that holds the bytes of some data is read as that data.
pub proof fn control_data_reads_back(held: ControlData, sent: ControlData)
    requires
        held is Config && sent is Config || held is Capability && sent is Capability
            || held is Timestamp && sent is Timestamp,
    ensures
        sent.bytes().len() == held.size(),
        held.filled(sent.bytes()) == sent,
{
    let s = sent.bytes();
    match sent {
        ControlData::Config(d) => {
            assert(s.subrange(4, 8) =~= le32(d.sw_version));
            assert(s.subrange(8, 12) =~= le32(d.hw_version));
            le32_reads_back(s, 4, d.sw_version);
            le32_reads_back(s, 8, d.hw_version);
        },
        ControlData::Capability(d) => {
            capability_reads_back(d);
        },
        _ => {
            let t = sent->Timestamp_0;
            assert(s.subrange(0, 4) =~= le32(t));
            le32_reads_back(s, 0, t);
        },
    }
}

/// The setup stage of a control transfer.
#[derive(Debug, Clone, Copy, PartialEq, Eq, Structural)]
pub struct SetupPacket {
    pub request_type: u8,
    pub request: u8,
    pub value: u16,
    pub index: u16,
    pub length: u16,
}

/// The four bytes at a place are those of a number, the lowest first.
pub open spec fn stands_at(s: Seq<u8>, at: int, x: u32) -> bool {
    &&& 0 <= at
    &&& at + 4 <= s.len()
    &&& x == s[at] + 256 * s[at + 1] + 65_536 * s[at + 2] + 16_777_216 * s[at + 3]
}

/// Numbers are written and read with the lowest byte first.
pub proof fn lowest_byte_comes_first(x: u32, s: Seq<u8>, at: int)
    ensures
        le32(x).len() == 4,
        stands_at(le32(x), 0, x),
        0 <= at && at + 4 <= s.len() ==> stands_at(s, at, un_le32(s, at)),
{
}

proof fn part_stands_at(s: Seq<u8>, at: int, x: u32)
    requires
        0 <= at,
        at + 4 <= s.len(),
        s.subrange(at, at + 4) == le32(x),
    ensures
        stands_at(s, at, x),
{
    le32_reads_back(s, at, x);
    lowest_byte_comes_first(x, s, at);
}

/// Where each field of what is sent stands in the buffer, and how long the buffer is.
pub proof fn sent_fields_stand_in_order(data: ControlData)
    ensures
        data.size() == data.bytes().len(),
        match data {
            ControlData::HostFormat(d) => {
                data.bytes().len() == 4 && stands_at(data.bytes(), 0, d.byte_order)
            },
            ControlData::Mode(d) => {
                &&& data.bytes().len() == 8
                &&& stands_at(data.bytes(), 0, d.mode)
                &&& stands_at(data.bytes(), 4, d.flags)
            },
            ControlData::Timing(d) => {
                &&& data.bytes().len() == 20
                &&& stands_at(data.bytes(), 0, d.prop_seg)
                &&& stands_at(data.bytes(), 4, d.phase_seg1)
                &&& stands_at(data.bytes(), 8, d.phase_seg2)
                &&& stands_at(data.bytes(), 12, d.sjw)
                &&& stands_at(data.bytes(), 16, d.brp)
            },
            ControlData::Config(_) => data.bytes().len() == 12,
            ControlData::Capability(_) => data.bytes().len() == 40,
            ControlData::Timestamp(_) => data.bytes().len() == 4,
        },
{
    let s = data.bytes();
    match data {
        ControlData::HostFormat(d) => {
            assert(s.subrange(0, 4) =~= le32(d.byte_order));
            part_stands_at(s, 0, d.byte_order);
        },
        ControlData::Mode(d) => {
            assert(s.subrange(0, 4) =~= le32(d.mode));
            assert(s.subrange(4, 8) =~= le32(d.flags));
            part_stands_at(s, 0, d.mode);
            part_stands_at(s, 4, d.flags);
        },
        ControlData::Timing(d) => {
            assert(s.subrange(0, 4) =~= le32(d.prop_seg));
            assert(s.subrange(4, 8) =~= le32(d.phase_seg1));
            assert(s.subrange(8, 12) =~= le32(d.phase_seg2));
            assert(s.subrange(12, 16) =~= le32(d.sjw));
            assert(s.subrange(16, 20) =~= le32(d.brp));
            part_stands_at(s, 0, d.prop_seg);
            part_stands_at(s, 4, d.phase_seg1);
            part_stands_at(s, 8, d.phase_seg2);
            part_stands_at(s, 12, d.sjw);
            part_stands_at(s, 16, d.brp);
        },
        _ => {},
    }
}

/// Where each field of what is read comes from in the buffer; what was to be sent stays as it was.
pub proof fn read_fields_come_in_order(held: ControlData, s: Seq<u8>)
    requires
        s.len() == held.size(),
    ensures
        match held {
            ControlData::Config(_) => {
                &&& s.len() == 12
                &&& held.filled(s) matches ControlData::Config(d) && {
                    &&& d.reserved1 == s[0]
                    &&& d.reserved2 == s[1]
                    &&& d.reserved3 == s[2]
                    &&& d.icount == s[3]
                    &&& stands_at(s, 4, d.sw_version)
                    &&& stands_at(s, 8, d.hw_version)
                }
            },
            ControlData::Capability(_) => {
                &&& s.len() == 40
                &&& held.filled(s) matches ControlData::Capability(d) && {
                    &&& stands_at(s, 0, d.feature)
                    &&& stands_at(s, 4, d.fclk_can)
                    &&& stands_at(s, 8, d.tseg1_min)
                    &&& stands_at(s, 12, d.tseg1_max)
                    &&& stands_at(s, 16, d.tseg2_min)
                    &&& stands_at(s, 20, d.tseg2_max)
                    &&& stands_at(s, 24, d.sjw_max)
                    &&& stands_at(s, 28, d.brp_min)
                    &&& stands_at(s, 32, d.brp_max)
                    &&& stands_at(s, 36, d.brp_inc)
                }
            },
            ControlData::Timestamp(_) => {
                &&& s.len() == 4
                &&& held.filled(s) matches ControlData::Timestamp(t) && stands_at(s, 0, t)
            },
            _ => held.filled(s) == held,
        },
        held is Config ==> held.filled(s) == ControlData::Config(CandleDeviceConfig::of_bytes(s)),
        held is Capability ==> held.filled(s) == ControlData::Capability(
            CandleCapability::of_bytes(s),
        ),
{
    match held {
        ControlData::Config(_) => {
            lowest_byte_comes_first(0, s, 4);
            lowest_byte_comes_first(0, s, 8);
        },
        ControlData::Capability(_) => {
            lowest_byte_comes_first(0, s, 0);
            lowest_byte_comes_first(0, s, 4);
            lowest_byte_comes_first(0, s, 8);
            lowest_byte_comes_first(0, s, 12);
            lowest_byte_comes_first(0, s, 16);
            lowest_byte_comes_first(0, s, 20);
            lowest_byte_comes_first(0, s, 24);
            lowest_byte_comes_first(0, s, 28);
            lowest_byte_comes_first(0, s, 32);
            lowest_byte_comes_first(0, s, 36);
        },
        ControlData::Timestamp(_) => {
            lowest_byte_comes_first(0, s, 0);
        },
        _ => {},
    }
}

/// Nothing is known of a device at first: its configuration and its capability are all zeros.
pub proof fn nothing_is_known_at_first()
    ensures
        ({
            let c = CandleDeviceConfig::zero();
            &&& c.reserved1 == 0 && c.reserved2 == 0 && c.reserved3 == 0 && c.icount == 0
            &&& c.sw_version == 0 && c.hw_version == 0
        }),
        ({
            let c = CandleCapability::zero();
            &&& c.feature == 0 && c.fclk_can == 0
            &&& c.tseg1_min == 0 && c.tseg1_max == 0 && c.tseg2_min == 0 && c.tseg2_max == 0
            &&& c.sjw_max == 0 && c.brp_min == 0 && c.brp_max == 0 && c.brp_inc == 0
        }),
{
}

} // verus!
