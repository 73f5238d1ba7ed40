//! Frames as they travel over the bulk pipes, and the messages that they carry.

use crate::can::{
    id_extended, id_is_extended, id_raw, id_std, message_data, message_id, message_is_rtr,
    message_new, message_new_rtr, padded, CanId, CanMessage,
};
use crate::wire::{
    get_u32, le32, le32_reads_back, lowest_byte_comes_first, put_u32, stands_at, un_le32,
};
use vstd::prelude::*;

verus! {

/// Set in `can_id` where the identifier is an extended one.
pub const CANDLE_ID_EXTENDED: u32 = 0x8000_0000;

/// Set in `can_id` where the frame is a remote transmission request.
pub const CANDLE_ID_RTR: u32 = 0x4000_0000;

/// Set in `can_id` where the frame reports an error.
pub const CANDLE_ID_ERR: u32 = 0x2000_0000;

/// The number of bytes of a frame.
pub const CANDLE_FRAME_SIZE: usize = 24;

/// A frame of a device.
#[derive(Debug, Clone, Copy, PartialEq, Eq)]
pub struct CandleFrame {
    pub echo_id: u32,
    pub can_id: u32,
    pub can_dlc: u8,
    pub channel: u8,
    pub flags: u8,
    pub reserved: u8,
    pub data: [u8; 8],
    pub timestamp_us: u32,
}

impl Default for CandleFrame {
    fn default() -> (f: Self)
        ensures
            f == CandleFrame::zero(),
    {
        CandleFrame {
            echo_id: 0,
            can_id: 0,
            can_dlc: 0,
            channel: 0,
            flags: 0,
            reserved: 0,
            data: [0, 0, 0, 0, 0, 0, 0, 0],
            timestamp_us: 0,
        }
    }
}

impl CandleFrame {
    pub open spec fn zero() -> Self {
        CandleFrame {
            echo_id: 0,
            can_id: 0,
            can_dlc: 0,
            channel: 0,
            flags: 0,
            reserved: 0,
            data: [0, 0, 0, 0, 0, 0, 0, 0],
            timestamp_us: 0,
        }
    }

    /// The frame as bytes.
    pub open spec fn bytes(self) -> Seq<u8> {
        le32(self.echo_id) + le32(self.can_id) + seq![
            self.can_dlc,
            self.channel,
            self.flags,
            self.reserved,
        ] + self.data@ + le32(self.timestamp_us)
    }

    /// The frame that the first bytes of a buffer stand for.
    pub open spec fn of_bytes(s: Seq<u8>) -> Self {
        CandleFrame {
            echo_id: un_le32(s, 0),
            can_id: un_le32(s, 4),
            can_dlc: s[8],
            channel: s[9],
            flags: s[10],
            reserved: s[11],
            data: [s[12], s[13], s[14], s[15], s[16], s[17], s[18], s[19]],
            timestamp_us: un_le32(s, 20),
        }
    }

    /// The frame reports an error.
    pub open spec fn is_error(self) -> bool {
        self.can_id & CANDLE_ID_ERR != 0
    }

    /// The frame is a remote transmission request.
    pub open spec fn is_rtr(self) -> bool {
        self.can_id & CANDLE_ID_RTR != 0
    }

    /// The identifier of the message in the frame.
    pub open spec fn id(self) -> CanId {
        if self.can_id & CANDLE_ID_EXTENDED != 0 {
            CanId::Extended(self.can_id & 0x1FFF_FFFF)
        } else {
            CanId::Std((self.can_id & 0x7FF) as u16)
        }
    }

    /// The frame can be read: it reports an error, or has no payload, or a payload that fits.
    pub open spec fn readable(self) -> bool {
        self.is_error() || self.is_rtr() || self.can_dlc <= 8
    }

    /// The frame as bytes.
    pub fn to_bytes(&self) -> (out: Vec<u8>)
        ensures
            out@ == self.bytes(),
            out@.len() == CANDLE_FRAME_SIZE,
    {
        let mut out: Vec<u8> = Vec::new();
        put_u32(&mut out, self.echo_id);
        put_u32(&mut out, self.can_id);
        out.push(self.can_dlc);
        out.push(self.channel);
        out.push(self.flags);
        out.push(self.reserved);
        let mut i: usize = 0;
        while i < 8
            invariant
                i <= 8,
                out@ =~= le32(self.echo_id) + le32(self.can_id) + seq![
                    self.can_dlc,
                    self.channel,
                    self.flags,
                    self.reserved,
                ] + self.data@.take(i as int),
            decreases 8 - i,
        {
            out.push(self.data[i]);
            i += 1;
        }
        put_u32(&mut out, self.timestamp_us);
        assert(out@ =~= self.bytes());
        out
    }

    /// The frame that the first bytes of a buffer stand for.
    pub fn from_bytes(buffer: &[u8]) -> (f: Self)
        requires
            buffer@.len() >= CANDLE_FRAME_SIZE,
        ensures
            f == CandleFrame::of_bytes(buffer@),
    {
        CandleFrame {
            echo_id: get_u32(buffer, 0),
            can_id: get_u32(buffer, 4),
            can_dlc: buffer[8],
            channel: buffer[9],
            flags: buffer[10],
            reserved: buffer[11],
            data: [
                buffer[12],
                buffer[13],
                buffer[14],
                buffer[15],
                buffer[16],
                buffer[17],
                buffer[18],
                buffer[19],
            ],
            timestamp_us: get_u32(buffer, 20),
        }
    }

    /// Whether the frame can be read as a message or an error.
    pub fn is_readable(&self) -> (b: bool)
        ensures
            b == self.readable(),
    {
        (self.can_id & CANDLE_ID_ERR) != 0 || (self.can_id & CANDLE_ID_RTR) != 0 || self.can_dlc
            <= 8
    }
}

/// A buffer that starts with the bytes of a frame is read as that frame.
pub proof fn frame_reads_back(frame: CandleFrame, rest: Seq<u8>)
    ensures
        CandleFrame::of_bytes(frame.bytes() + rest) == frame,
{
    let s = frame.bytes() + rest;
    assert(s.subrange(0, 4) =~= le32(frame.echo_id));
    assert(s.subrange(4, 8) =~= le32(frame.can_id));
    assert(s.subrange(20, 24) =~= le32(frame.timestamp_us));
    le32_reads_back(s, 0, frame.echo_id);
    le32_reads_back(s, 4, frame.can_id);
    le32_reads_back(s, 20, frame.timestamp_us);
    let back = CandleFrame::of_bytes(s);
    assert forall|i: int| 0 <= i < 8 implies back.data@[i] == frame.data@[i] by {
        assert(s[12 + i] == frame.data@[i]);
    }
    assert(back.data =~= frame.data);
}

/// The identifier of a message with the flags that its frame carries.
pub open spec fn tagged_id(msg: CanMessage) -> u32 {
    let id = if msg.id is Extended {
        msg.id.number() | CANDLE_ID_EXTENDED
    } else {
        msg.id.number()
    };
    if msg.rtr {
        id | CANDLE_ID_RTR
    } else {
        id
    }
}

/// The frame that carries a message on a channel.
pub open spec fn frame_of(msg: CanMessage, channel: u8) -> CandleFrame {
    let d = padded(msg.payload());
    CandleFrame {
        can_id: tagged_id(msg),
        can_dlc: msg.dlc,
        channel,
        data: [d[0], d[1], d[2], d[3], d[4], d[5], d[6], d[7]],
        ..CandleFrame::zero()
    }
}

/// The message that a frame carries.
pub open spec fn carries(frame: CandleFrame, msg: CanMessage) -> bool {
    &&& msg.id == frame.id()
    &&& msg.rtr == frame.is_rtr()
    &&& msg.dlc == if frame.is_rtr() {
        0
    } else {
        frame.can_dlc
    }
    &&& msg.data@ == padded(frame.data@.take(msg.dlc as int))
}

/// Puts a message into a frame for a channel.
pub fn message_to_frame(msg: &CanMessage, channel: u8) -> (frame: CandleFrame)
    requires
        msg.wf(),
    ensures
        frame == frame_of(*msg, channel),
{
    let mut frame = CandleFrame::default();
    let id = message_id(msg);
    frame.can_id = id_raw(id);
    if id_is_extended(id) {
        frame.can_id = frame.can_id | CANDLE_ID_EXTENDED;
    }
    if message_is_rtr(msg) {
        frame.can_id = frame.can_id | CANDLE_ID_RTR;
    }
    frame.can_dlc = msg.dlc;
    frame.channel = channel;
    let payload = message_data(msg);
    let mut i: usize = 0;
    while i < payload.len()
        invariant
            msg.wf(),
            i <= payload@.len(),
            payload@ == msg.payload(),
            payload@.len() <= 8,
            frame.can_id == tagged_id(*msg),
            frame.can_dlc == msg.dlc,
            frame.channel == channel,
            frame.echo_id == 0,
            frame.flags == 0,
            frame.reserved == 0,
            frame.timestamp_us == 0,
            frame.data@ =~= padded(payload@.take(i as int)),
        decreases payload@.len() - i,
    {
        frame.data[i] = payload[i];
        i += 1;
    }
    assert(payload@.take(i as int) =~= payload@);
    assert(frame.data =~= frame_of(*msg, channel).data);
    frame
}

/// Takes the message out of a frame that reports no error.
pub fn frame_to_message(frame: &CandleFrame) -> (msg: CanMessage)
    requires
        frame.readable(),
        !frame.is_error(),
    ensures
        carries(*frame, msg),
        msg.wf(),
{
    let can_id = frame.can_id;
    assert(can_id & 0x7FF <= 0x7FF) by (bit_vector);
    let id = if (can_id & CANDLE_ID_EXTENDED) != 0 {
        id_extended(can_id & 0x1FFF_FFFF)
    } else {
        id_std((can_id & 0x7FF) as u16)
    };
    if (can_id & CANDLE_ID_RTR) != 0 {
        let msg = message_new_rtr(id);
        assert(frame.data@.take(0) =~= Seq::empty());
        msg
    } else {
        let data = frame.data.as_slice();
        let payload = vstd::slice::slice_subrange(data, 0, frame.can_dlc as usize);
        assert(payload@ =~= frame.data@.take(frame.can_dlc as int));
        message_new(id, payload)
    }
}

proof fn flags_read_back(id: u32, ext: bool, rtr: bool)
    requires
        ext ==> id <= 0x1FFF_FFFF,
        !ext ==> id <= 0x7FF,
    ensures
        ({
            let a = if ext {
                id | CANDLE_ID_EXTENDED
            } else {
                id
            };
            let b = if rtr {
                a | CANDLE_ID_RTR
            } else {
                a
            };
            &&& (b & CANDLE_ID_ERR) == 0
            &&& ((b & CANDLE_ID_RTR) != 0) == rtr
            &&& ((b & CANDLE_ID_EXTENDED) != 0) == ext
            &&& ext ==> b & 0x1FFF_FFFF == id
            &&& !ext ==> b & 0x7FF == id
        }),
{
    assert(id <= 0x1FFF_FFFF ==> {
        &&& id & 0x2000_0000 == 0
        &&& id & 0x4000_0000 == 0
        &&& id & 0x8000_0000 == 0
        &&& (id | 0x4000_0000) & 0x2000_0000 == 0
        &&& (id | 0x4000_0000) & 0x4000_0000 != 0
        &&& (id | 0x4000_0000) & 0x8000_0000 == 0
        &&& (id | 0x8000_0000) & 0x2000_0000 == 0
        &&& (id | 0x8000_0000) & 0x4000_0000 == 0
        &&& (id | 0x8000_0000) & 0x8000_0000 != 0
        &&& (id | 0x8000_0000) & 0x1FFF_FFFF == id
        &&& ((id | 0x8000_0000) | 0x4000_0000) & 0x2000_0000 == 0
        &&& ((id | 0x8000_0000) | 0x4000_0000) & 0x4000_0000 != 0
        &&& ((id | 0x8000_0000) | 0x4000_0000) & 0x8000_0000 != 0
        &&& ((id | 0x8000_0000) | 0x4000_0000) & 0x1FFF_FFFF == id
    }) by (bit_vector);
    assert(id <= 0x7FF ==> {
        &&& id & 0x7FF == id
        &&& (id | 0x4000_0000) & 0x7FF == id
    }) by (bit_vector);
}

/// The frame that carries a message whose identifier is in range can be read, and reports no
/// error.
pub proof fn carried_frame_is_no_error(msg: CanMessage, channel: u8)
    requires
        msg.wf(),
        msg.id.in_range(),
    ensures
        frame_of(msg, channel).readable(),
        !frame_of(msg, channel).is_error(),
{
    flags_read_back(msg.id.number(), msg.id is Extended, msg.rtr);
}

/// What is read from the frame that carries a message is that message: its identifier where it
/// is in range, its kind, and its payload, a remote transmission request having none. Where the
/// data of the message is zero past its payload, the two are equal.
pub proof fn message_survives_its_frame(sent: CanMessage, channel: u8, read: CanMessage)
    requires
        sent.wf(),
        sent.id.in_range(),
        carries(frame_of(sent, channel), read),
    ensures
        read.id == sent.id,
        read.rtr == sent.rtr,
        sent.rtr ==> read.dlc == 0,
        !sent.rtr ==> read.dlc == sent.dlc && read.payload() == sent.payload(),
        (sent.rtr ==> sent.dlc == 0) && sent.data@ == padded(sent.payload()) ==> read == sent,
{
    let frame = frame_of(sent, channel);
    flags_read_back(sent.id.number(), sent.id is Extended, sent.rtr);
    assert(frame.data@ =~= padded(sent.payload()));
    if !sent.rtr {
        assert(frame.data@.take(sent.dlc as int) =~= sent.payload());
        assert(read.payload() =~= sent.payload());
    }
    if (sent.rtr ==> sent.dlc == 0) && sent.data@ == padded(sent.payload()) {
        assert(read.data@ =~= sent.data@);
        assert(read.data =~= sent.data);
    }
}

/// The same holds over the wire: of a buffer that starts with the bytes of the frame.
pub proof fn message_survives_the_wire(
    sent: CanMessage,
    channel: u8,
    rest: Seq<u8>,
    read: CanMessage,
)
    requires
        sent.wf(),
        sent.id.in_range(),
        carries(CandleFrame::of_bytes(frame_of(sent, channel).bytes() + rest), read),
    ensures
        read.id == sent.id,
        read.rtr == sent.rtr,
        sent.rtr ==> read.dlc == 0,
        !sent.rtr ==> read.dlc == sent.dlc && read.payload() == sent.payload(),
        (sent.rtr ==> sent.dlc == 0) && sent.data@ == padded(sent.payload()) ==> read == sent,
{
    frame_reads_back(frame_of(sent, channel), rest);
    message_survives_its_frame(sent, channel, read);
}

/// Where each field of a frame stands among its bytes.
pub proof fn frame_fields_stand_in_order(frame: CandleFrame)
    ensures
        ({
            let s = frame.bytes();
            &&& s.len() == 24
            &&& stands_at(s, 0, frame.echo_id)
            &&& stands_at(s, 4, frame.can_id)
            &&& s[8] == frame.can_dlc
            &&& s[9] == frame.channel
            &&& s[10] == frame.flags
            &&& s[11] == frame.reserved
            &&& forall|i: int| 0 <= i < 8 ==> s[12 + i] == #[trigger] frame.data[i]
            &&& stands_at(s, 20, frame.timestamp_us)
        }),
{
    let s = frame.bytes();
    assert(s.subrange(0, 4) =~= le32(frame.echo_id));
    assert(s.subrange(4, 8) =~= le32(frame.can_id));
    assert(s.subrange(20, 24) =~= le32(frame.timestamp_us));
    le32_reads_back(s, 0, frame.echo_id);
    le32_reads_back(s, 4, frame.can_id);
    le32_reads_back(s, 20, frame.timestamp_us);
    lowest_byte_comes_first(0, s, 0);
    lowest_byte_comes_first(0, s, 4);
    lowest_byte_comes_first(0, s, 20);
}

/// Where each field of a frame comes from in a buffer that it is read from.
pub proof fn frame_fields_come_in_order(s: Seq<u8>)
    requires
        s.len() >= 24,
    ensures
        ({
            let frame = CandleFrame::of_bytes(s);
            &&& stands_at(s, 0, frame.echo_id)
            &&& stands_at(s, 4, frame.can_id)
            &&& frame.can_dlc == s[8]
            &&& frame.channel == s[9]
            &&& frame.flags == s[10]
            &&& frame.reserved == s[11]
            &&& forall|i: int| 0 <= i < 8 ==> #[trigger] frame.data[i] == s[12 + i]
            &&& stands_at(s, 20, frame.timestamp_us)
        }),
{
    lowest_byte_comes_first(0, s, 0);
    lowest_byte_comes_first(0, s, 4);
    lowest_byte_comes_first(0, s, 20);
}

/// What a sent message becomes: byte `i` of the data of its frame is byte `i` of the data of the
/// message, below its length, and zero after that; the frame has the length and the channel, the
/// number of the identifier with a flag for an extended one and one for a remote transmission
/// request, and zeros in every other field.
pub proof fn frame_holds_the_message(msg: CanMessage, channel: u8)
    requires
        msg.dlc <= 8,
    ensures
        ({
            let frame = frame_of(msg, channel);
            &&& forall|i: int| 0 <= i < msg.dlc ==> #[trigger] frame.data[i] == msg.data[i]
            &&& forall|i: int| msg.dlc <= i < 8 ==> #[trigger] frame.data[i] == 0
            &&& frame.can_dlc == msg.dlc
            &&& frame.channel == channel
            &&& match (msg.id, msg.rtr) {
                (CanId::Std(n), false) => frame.can_id == n,
                (CanId::Std(n), true) => frame.can_id == n as u32 | 0x4000_0000,
                (CanId::Extended(n), false) => frame.can_id == n | 0x8000_0000,
                (CanId::Extended(n), true) => frame.can_id == n | 0x8000_0000 | 0x4000_0000,
            }
            &&& frame.echo_id == 0
            &&& frame.flags == 0
            &&& frame.reserved == 0
            &&& frame.timestamp_us == 0
        }),
{
}

/// What a frame is read as, whatever its channel, its echo, its flags and its timestamp: byte `i` of
/// the data of the message is byte `i` of the data of the frame, below the length of the frame, and
/// zero after that; a remote transmission request has no payload. The identifier is the low 29 bits
/// of an extended one, and else the low 11 bits.
pub proof fn message_holds_the_frame(frame: CandleFrame, msg: CanMessage)
    requires
        carries(frame, msg),
        frame.can_id & 0x4000_0000 != 0 || frame.can_dlc <= 8,
    ensures
        msg.rtr <==> frame.can_id & 0x4000_0000 != 0,
        msg.rtr ==> msg.dlc == 0,
        !msg.rtr ==> {
            &&& msg.dlc == frame.can_dlc
            &&& forall|i: int| 0 <= i < frame.can_dlc ==> #[trigger] msg.data[i] == frame.data[i]
        },
        forall|i: int| msg.dlc <= i < 8 ==> #[trigger] msg.data[i] == 0,
        if frame.can_id & 0x8000_0000 != 0 {
            msg.id == CanId::Extended(frame.can_id & 0x1FFF_FFFF)
        } else {
            msg.id matches CanId::Std(n) && n == frame.can_id & 0x7FF
        },
{
    let can_id = frame.can_id;
    assert(can_id & 0x7FF <= 0x7FF) by (bit_vector);
    assert forall|i: int| 0 <= i < 8 implies #[trigger] msg.data[i] == padded(
        frame.data@.take(msg.dlc as int),
    )[i] by {
        assert(msg.data@[i] == msg.data[i]);
    }
}

/// Which frames report an error, and which can be read.
pub proof fn frame_flags(frame: CandleFrame)
    ensures
        frame.is_error() <==> frame.can_id & 0x2000_0000 != 0,
        frame.is_rtr() <==> frame.can_id & 0x4000_0000 != 0,
        frame.readable() <==> {
            ||| frame.can_id & 0x2000_0000 != 0
            ||| frame.can_id & 0x4000_0000 != 0
            ||| frame.can_dlc <= 8
        },
{
}

/// The flags in an identifier, and the number of bytes of a frame.
pub proof fn frame_numbers()
    ensures
        CANDLE_ID_EXTENDED == 0x8000_0000,
        CANDLE_ID_RTR == 0x4000_0000,
        CANDLE_ID_ERR == 0x2000_0000,
        CANDLE_FRAME_SIZE == 24,
{
}

/// A frame is all zeros at first.
pub proof fn frame_is_blank_at_first()
    ensures
        ({
            let frame = CandleFrame::zero();
            &&& frame.echo_id == 0 && frame.can_id == 0 && frame.timestamp_us == 0
            &&& frame.can_dlc == 0 && frame.channel == 0 && frame.flags == 0 && frame.reserved == 0
            &&& forall|i: int| 0 <= i < 8 ==> #[trigger] frame.data[i] == 0
        }),
{
}

} // verus!
