//! CAN identifiers and messages, as plain values.
//!
//! They hold what the types of `zencan_common::messages` hold. What those types compute is
//! asked of them, through the functions at the end of this file, whose contracts are taken on
//! trust.

use vstd::prelude::*;

verus! {

/// A CAN identifier.
#[derive(Debug, Clone, Copy, PartialEq, Eq, Structural)]
pub enum CanId {
    Extended(u32),
    Std(u16),
}

impl CanId {
    /// The identifier as a number.
    pub open spec fn number(self) -> u32 {
        match self {
            CanId::Extended(id) => id,
            CanId::Std(id) => id as u32,
        }
    }

    /// The identifier fits the number of bits that its kind has on the bus.
    pub open spec fn in_range(self) -> bool {
        match self {
            CanId::Extended(id) => id <= 0x1FFF_FFFF,
            CanId::Std(id) => id <= 0x7FF,
        }
    }
}

/// A CAN message: the first `dlc` bytes of `data` are its payload.
#[derive(Debug, Clone, Copy, PartialEq, Eq)]
pub struct CanMessage {
    pub data: [u8; 8],
    pub dlc: u8,
    pub rtr: bool,
    pub id: CanId,
}

impl CanMessage {
    /// The payload lies within the data.
    pub open spec fn wf(self) -> bool {
        self.dlc <= 8
    }

    /// The payload.
    pub open spec fn payload(self) -> Seq<u8> {
        self.data@.take(self.dlc as int)
    }

    /// Whether the payload lies within the data.
    pub fn is_wf(&self) -> (b: bool)
        ensures
            b == self.wf(),
    {
        self.dlc <= 8
    }
}

/// An error reported on the bus.
#[derive(Debug, Clone, Copy, PartialEq, Eq, Structural)]
pub enum CanError {
    Bit,
    Stuff,
    Form,
    Ack,
    Crc,
    Other,
}

/// The data array of a message with the given payload: the payload, then zeros.
pub open spec fn padded(payload: Seq<u8>) -> Seq<u8> {
    Seq::new(
        8,
        |i: int|
            if i < payload.len() {
                payload[i]
            } else {
                0
            },
    )
}

/// `zencan_common::messages::CanId::extended`: the extended identifier of that number.
#[verifier::external_body]
pub(crate) fn id_extended(id: u32) -> (r: CanId)
    ensures
        r == CanId::Extended(id),
{
    match zencan_common::messages::CanId::extended(id) {
        zencan_common::messages::CanId::Extended(n) => CanId::Extended(n),
        zencan_common::messages::CanId::Std(n) => CanId::Std(n),
    }
}

/// `zencan_common::messages::CanId::std`: the standard identifier of that number.
#[verifier::external_body]
pub(crate) fn id_std(id: u16) -> (r: CanId)
    ensures
        r == CanId::Std(id),
{
    match zencan_common::messages::CanId::std(id) {
        zencan_common::messages::CanId::Extended(n) => CanId::Extended(n),
        zencan_common::messages::CanId::Std(n) => CanId::Std(n),
    }
}

/// `zencan_common::messages::CanId::raw`: the number of an identifier of either kind.
#[verifier::external_body]
pub(crate) fn id_raw(id: CanId) -> (r: u32)
    ensures
        r == id.number(),
{
    let id = match id {
        CanId::Extended(n) => zencan_common::messages::CanId::Extended(n),
        CanId::Std(n) => zencan_common::messages::CanId::Std(n),
    };
    id.raw()
}

/// `zencan_common::messages::CanId::is_extended`: whether the identifier is an extended one.
#[verifier::external_body]
pub(crate) fn id_is_extended(id: CanId) -> (r: bool)
    ensures
        r == (id is Extended),
{
    let id = match id {
        CanId::Extended(n) => zencan_common::messages::CanId::Extended(n),
        CanId::Std(n) => zencan_common::messages::CanId::Std(n),
    };
    id.is_extended()
}

/// `zencan_common::messages::CanMessage::new`: a data message with that identifier and payload,
/// its data filled up with zeros. The outside function panics on more than eight bytes.
#[verifier::external_body]
pub(crate) fn message_new(id: CanId, data: &[u8]) -> (r: CanMessage)
    requires
        data@.len() <= 8,
    ensures
        r.id == id,
        !r.rtr,
        r.dlc == data@.len(),
        r.data@ == padded(data@),
{
    let id = match id {
        CanId::Extended(n) => zencan_common::messages::CanId::Extended(n),
        CanId::Std(n) => zencan_common::messages::CanId::Std(n),
    };
    let m = zencan_common::messages::CanMessage::new(id, data);
    let id = match m.id {
        zencan_common::messages::CanId::Extended(n) => CanId::Extended(n),
        zencan_common::messages::CanId::Std(n) => CanId::Std(n),
    };
    CanMessage { data: m.data, dlc: m.dlc, rtr: m.rtr, id }
}

/// `zencan_common::messages::CanMessage::new_rtr`: a remote transmission request with that
/// identifier and no payload, its data all zeros.
#[verifier::external_body]
pub(crate) fn message_new_rtr(id: CanId) -> (r: CanMessage)
    ensures
        r.id == id,
        r.rtr,
        r.dlc == 0,
        r.data@ == padded(Seq::empty()),
{
    let id = match id {
        CanId::Extended(n) => zencan_common::messages::CanId::Extended(n),
        CanId::Std(n) => zencan_common::messages::CanId::Std(n),
    };
    let m = zencan_common::messages::CanMessage::new_rtr(id);
    let id = match m.id {
        zencan_common::messages::CanId::Extended(n) => CanId::Extended(n),
        zencan_common::messages::CanId::Std(n) => CanId::Std(n),
    };
    CanMessage { data: m.data, dlc: m.dlc, rtr: m.rtr, id }
}

/// `zencan_common::messages::CanMessage::id`: the identifier of a message.
#[verifier::external_body]
pub(crate) fn message_id(msg: &CanMessage) -> (r: CanId)
    ensures
        r == msg.id,
{
    let id = match msg.id {
        CanId::Extended(n) => zencan_common::messages::CanId::Extended(n),
        CanId::Std(n) => zencan_common::messages::CanId::Std(n),
    };
    let m = zencan_common::messages::CanMessage { data: msg.data, dlc: msg.dlc, rtr: msg.rtr, id };
    match m.id() {
        zencan_common::messages::CanId::Extended(n) => CanId::Extended(n),
        zencan_common::messages::CanId::Std(n) => CanId::Std(n),
    }
}

/// `zencan_common::messages::CanMessage::is_rtr`: whether a message is a remote transmission
/// request.
#[verifier::external_body]
pub(crate) fn message_is_rtr(msg: &CanMessage) -> (r: bool)
    ensures
        r == msg.rtr,
{
    let id = match msg.id {
        CanId::Extended(n) => zencan_common::messages::CanId::Extended(n),
        CanId::Std(n) => zencan_common::messages::CanId::Std(n),
    };
    let m = zencan_common::messages::CanMessage { data: msg.data, dlc: msg.dlc, rtr: msg.rtr, id };
    m.is_rtr()
}

/// `zencan_common::messages::CanMessage::data`: the payload of a message. The outside function
/// panics where `dlc` is more than eight.
#[verifier::external_body]
pub(crate) fn message_data(msg: &CanMessage) -> (r: Vec<u8>)
    requires
        msg.wf(),
    ensures
        r@ == msg.payload(),
{
    let id = match msg.id {
        CanId::Extended(n) => zencan_common::messages::CanId::Extended(n),
        CanId::Std(n) => zencan_common::messages::CanId::Std(n),
    };
    let m = zencan_common::messages::CanMessage { data: msg.data, dlc: msg.dlc, rtr: msg.rtr, id };
    m.data().to_vec()
}

/// What is meant by the parts of a message: it is well formed exactly where its length is at most
/// eight, its payload is the bytes of its data below its length, each at its place, and its number
/// is the one in its identifier.
pub proof fn message_parts(msg: CanMessage)
    ensures
        msg.wf() <==> msg.dlc <= 8,
        msg.dlc <= 8 ==> {
            &&& msg.payload().len() == msg.dlc
            &&& forall|i: int| 0 <= i < msg.dlc ==> #[trigger] msg.payload()[i] == msg.data[i]
        },
        match msg.id {
            CanId::Extended(n) => {
                &&& msg.id.number() == n
                &&& msg.id.in_range() <==> n < 0x2000_0000
            },
            CanId::Std(n) => {
                &&& msg.id.number() == n
                &&& msg.id.in_range() <==> n < 0x800
            },
        },
{
}

/// A payload is padded to eight bytes, each of its bytes at its place and zeros after them.
pub proof fn padding_is_zeros(payload: Seq<u8>)
    ensures
        padded(payload).len() == 8,
        forall|i: int|
            0 <= i < 8 && i < payload.len() ==> #[trigger] padded(payload)[i] == payload[i],
        forall|i: int| payload.len() <= i < 8 ==> #[trigger] padded(payload)[i] == 0,
{
}

} // verus!
