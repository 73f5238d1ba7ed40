//! Sending and receiving frames over the bulk pipes.

use crate::device::{CandleDevice, CANDLE_URB_COUNT};
use crate::error::CandleErr;
use crate::frame::{CandleFrame, CANDLE_FRAME_SIZE};
use crate::usb::{
    after, calls, calls_match_replies, completes, completes_by_steps, Operation, Reply, Request,
};
use vstd::prelude::*;

verus! {

/// The error code of the system for an operation that goes on in the background.
pub const ERROR_IO_PENDING: u32 = 997;

/// What a wait returns where the time ran out.
pub const WAIT_TIMEOUT: u32 = 258;

/// What a wait returns where the first event was set; each further event adds one.
pub const WAIT_OBJECT_0: u32 = 0;

/// The call that starts a read into the buffer `urb`.
pub open spec fn read_request(dev: CandleDevice, urb: int) -> Request {
    Request::ReadPipe {
        usb: dev.winusb_handle,
        pipe: dev.bulk_in_pipe,
        urb: urb as usize,
        event: dev.rxevents[urb],
    }
}

/// Whether the call that starts a read counts as having started it: it does where the call fails,
/// with any code but `ERROR_IO_PENDING`, and does not where it reports success.
///
/// The code that `get_last_err_code` gives for a read that goes on in the background is
/// `0x8007_03E5`, not `ERROR_IO_PENDING`, so such a read counts as started. So does one that
/// failed for good, with whatever code.
pub open spec fn read_started(reply: Reply) -> bool {
    !(reply->Status_ok || reply->Status_last_error == Some(ERROR_IO_PENDING))
}

/// The device after the call that starts a read.
pub open spec fn after_prepare(dev: CandleDevice, reply: Reply) -> CandleDevice {
    CandleDevice {
        last_error: if read_started(reply) {
            CandleErr::Success
        } else {
            CandleErr::PrepareRead
        },
        ..dev
    }
}

/// The call that starts a read into the buffer `urb`.
pub fn prepare_read_request(dev: &CandleDevice, urb: usize) -> (request: Request)
    requires
        urb < CANDLE_URB_COUNT,
    ensures
        request == read_request(*dev, urb as int),
{
    Request::ReadPipe {
        usb: dev.winusb_handle,
        pipe: dev.bulk_in_pipe,
        urb,
        event: dev.rxevents[urb],
    }
}

/// Takes in what the call that starts a read came to; whether it counts as started.
pub fn candle_prepare_read(dev: &mut CandleDevice, ok: bool, last_error: Option<u32>) -> (started:
    bool)
    ensures
        started == read_started(Reply::Status { ok, last_error }),
        *final(dev) == after_prepare(*old(dev), Reply::Status { ok, last_error }),
{
    let pending = match last_error {
        Some(code) => code == ERROR_IO_PENDING,
        None => false,
    };
    if ok || pending {
        dev.last_error = CandleErr::PrepareRead;
        false
    } else {
        dev.last_error = CandleErr::Success;
        true
    }
}

/// The sending of a frame.
#[derive(Debug, Clone, Copy)]
pub enum FrameSend {
    /// The frame is to be written.
    Write { frame: CandleFrame },
    /// The end.
    Finished { ok: bool },
}

/// The frame that is written for a frame on a channel.
pub open spec fn outgoing(frame: CandleFrame, channel: u8) -> CandleFrame {
    CandleFrame { echo_id: 0, channel, ..frame }
}

/// Sends a frame on a channel; refused where there is no device or no frame. The frame is marked
/// with the channel.
pub fn candle_frame_send(
    device: Option<&CandleDevice>,
    channel: u8,
    frame: Option<&mut CandleFrame>,
) -> (op: FrameSend)
    ensures
        match frame {
            Some(f) => {
                if device is Some {
                    &&& *final(f) == outgoing(*f, channel)
                    &&& op == (FrameSend::Write { frame: outgoing(*f, channel) })
                } else {
                    &&& *final(f) == *f
                    &&& op == (FrameSend::Finished { ok: false })
                }
            },
            None => op == (FrameSend::Finished { ok: false }),
        },
{
    match frame {
        Some(f) => {
            if device.is_some() {
                f.echo_id = 0;
                f.channel = channel;
                FrameSend::Write { frame: *f }
            } else {
                FrameSend::Finished { ok: false }
            }
        },
        None => FrameSend::Finished { ok: false },
    }
}

impl Operation for FrameSend {
    type State = CandleDevice;

    open spec fn wf(self) -> bool {
        true
    }

    open spec fn pending(self, dev: CandleDevice) -> Option<Request> {
        match self {
            FrameSend::Write { frame } => Some(
                Request::WritePipe { usb: dev.winusb_handle, pipe: dev.bulk_out_pipe, frame },
            ),
            FrameSend::Finished { .. } => None,
        }
    }

    open spec fn next(self, dev: CandleDevice, reply: Reply) -> (CandleDevice, Self) {
        match (self, reply) {
            (FrameSend::Write { .. }, Reply::Status { ok, .. }) => (
                CandleDevice {
                    last_error: if ok {
                        CandleErr::Success
                    } else {
                        CandleErr::SendFrame
                    },
                    ..dev
                },
                FrameSend::Finished { ok },
            ),
            _ => (dev, self),
        }
    }

    open spec fn result(self) -> Option<bool> {
        match self {
            FrameSend::Write { .. } => None,
            FrameSend::Finished { ok } => Some(ok),
        }
    }

    open spec fn calls_left(self) -> nat {
        if self is Write {
            1
        } else {
            0
        }
    }

    proof fn calls_until_the_end(self, dev: CandleDevice) {
    }

    proof fn advances(self, dev: CandleDevice, reply: Reply) {
    }

    fn request(self, dev: &CandleDevice) -> (request: Option<Request>) {
        match self {
            FrameSend::Write { frame } => Some(
                Request::WritePipe { usb: dev.winusb_handle, pipe: dev.bulk_out_pipe, frame },
            ),
            FrameSend::Finished { .. } => None,
        }
    }

    fn step(self, dev: &mut CandleDevice, reply: &Reply) -> (op: Self) {
        match (self, reply) {
            (FrameSend::Write { .. }, Reply::Status { ok, .. }) => {
                dev.last_error = if *ok {
                    CandleErr::Success
                } else {
                    CandleErr::SendFrame
                };
                FrameSend::Finished { ok: *ok }
            },
            _ => self,
        }
    }

    fn outcome(self) -> (ok: Option<bool>) {
        match self {
            FrameSend::Write { .. } => None,
            FrameSend::Finished { ok } => Some(ok),
        }
    }
}

/// The receiving of a frame.
#[derive(Debug, Clone, Copy)]
pub enum FrameRead {
    /// One of the reads is to end.
    Wait { timeout_ms: u32 },
    /// How the read into `urb` ended is to be found out.
    Result { urb: usize },
    /// The read into `urb` is to be started again after a failure.
    Requeue { urb: usize, error: CandleErr },
    /// The read into `urb` is to be started again after a frame.
    Rearm { urb: usize, frame: CandleFrame },
    /// The end; `read` is the frame that was read, if any.
    Finished { ok: bool, read: Option<CandleFrame> },
}

/// Receives a frame, waiting for `timeout_ms`; refused where there is no device.
pub fn candle_frame_read(device: Option<&CandleDevice>, timeout_ms: u32) -> (op: FrameRead)
    ensures
        op == if device is Some {
            FrameRead::Wait { timeout_ms }
        } else {
            FrameRead::Finished { ok: false, read: None }
        },
        op.wf(),
{
    if device.is_some() {
        FrameRead::Wait { timeout_ms }
    } else {
        FrameRead::Finished { ok: false, read: None }
    }
}

impl Operation for FrameRead {
    type State = CandleDevice;

    open spec fn wf(self) -> bool {
        match self {
            FrameRead::Result { urb } => urb < CANDLE_URB_COUNT,
            FrameRead::Requeue { urb, .. } => urb < CANDLE_URB_COUNT,
            FrameRead::Rearm { urb, .. } => urb < CANDLE_URB_COUNT,
            _ => true,
        }
    }

    open spec fn pending(self, dev: CandleDevice) -> Option<Request> {
        match self {
            FrameRead::Wait { timeout_ms } => Some(
                Request::WaitEvents { events: dev.rxevents, timeout_ms },
            ),
            FrameRead::Result { urb } => Some(
                Request::OverlappedResult { usb: dev.winusb_handle, urb },
            ),
            FrameRead::Requeue { urb, .. } => Some(read_request(dev, urb as int)),
            FrameRead::Rearm { urb, .. } => Some(read_request(dev, urb as int)),
            FrameRead::Finished { .. } => None,
        }
    }

    open spec fn next(self, dev: CandleDevice, reply: Reply) -> (CandleDevice, Self) {
        match (self, reply) {
            (FrameRead::Wait { .. }, Reply::Wait(what)) => {
                if what == WAIT_TIMEOUT {
                    (
                        CandleDevice { last_error: CandleErr::ReadTimeout, ..dev },
                        FrameRead::Finished { ok: false, read: None },
                    )
                } else if what >= WAIT_OBJECT_0 + CANDLE_URB_COUNT {
                    (
                        CandleDevice { last_error: CandleErr::ReadWait, ..dev },
                        FrameRead::Finished { ok: false, read: None },
                    )
                } else {
                    (dev, FrameRead::Result { urb: (what - WAIT_OBJECT_0) as usize })
                }
            },
            (FrameRead::Result { urb }, Reply::Overlapped { transferred, buffer }) => {
                match transferred {
                    None => (dev, FrameRead::Requeue { urb, error: CandleErr::ReadResult }),
                    Some(n) => {
                        if n < CANDLE_FRAME_SIZE - 4 {
                            (dev, FrameRead::Requeue { urb, error: CandleErr::ReadSize })
                        } else {
                            (
                                dev,
                                FrameRead::Rearm { urb, frame: CandleFrame::of_bytes(buffer@) },
                            )
                        }
                    },
                }
            },
            (FrameRead::Requeue { error, .. }, Reply::Status { .. }) => (
                CandleDevice { last_error: error, ..dev },
                FrameRead::Finished { ok: false, read: None },
            ),
            (FrameRead::Rearm { frame, .. }, Reply::Status { .. }) => (
                after_prepare(dev, reply),
                FrameRead::Finished { ok: read_started(reply), read: Some(frame) },
            ),
            _ => (dev, self),
        }
    }

    open spec fn result(self) -> Option<bool> {
        match self {
            FrameRead::Finished { ok, .. } => Some(ok),
            _ => None,
        }
    }

    open spec fn calls_left(self) -> nat {
        match self {
            FrameRead::Wait { .. } => 3,
            FrameRead::Result { .. } => 2,
            FrameRead::Requeue { .. } => 1,
            FrameRead::Rearm { .. } => 1,
            FrameRead::Finished { .. } => 0,
        }
    }

    proof fn calls_until_the_end(self, dev: CandleDevice) {
    }

    proof fn advances(self, dev: CandleDevice, reply: Reply) {
    }

    fn request(self, dev: &CandleDevice) -> (request: Option<Request>) {
        match self {
            FrameRead::Wait { timeout_ms } => Some(
                Request::WaitEvents { events: dev.rxevents, timeout_ms },
            ),
            FrameRead::Result { urb } => Some(
                Request::OverlappedResult { usb: dev.winusb_handle, urb },
            ),
            FrameRead::Requeue { urb, .. } => Some(prepare_read_request(dev, urb)),
            FrameRead::Rearm { urb, .. } => Some(prepare_read_request(dev, urb)),
            FrameRead::Finished { .. } => None,
        }
    }

    fn step(self, dev: &mut CandleDevice, reply: &Reply) -> (op: Self) {
        match (self, reply) {
            (FrameRead::Wait { .. }, Reply::Wait(what)) => {
                let what: u32 = *what;
                if what == WAIT_TIMEOUT {
                    dev.last_error = CandleErr::ReadTimeout;
                    return FrameRead::Finished { ok: false, read: None };
                }
                if what >= WAIT_OBJECT_0 + CANDLE_URB_COUNT as u32 {
                    dev.last_error = CandleErr::ReadWait;
                    return FrameRead::Finished { ok: false, read: None };
                }
                FrameRead::Result { urb: (what - WAIT_OBJECT_0) as usize }
            },
            (FrameRead::Result { urb }, Reply::Overlapped { transferred, buffer }) => {
                match transferred {
                    None => FrameRead::Requeue { urb, error: CandleErr::ReadResult },
                    Some(n) => {
                        if *n < CANDLE_FRAME_SIZE as u32 - 4 {
                            FrameRead::Requeue { urb, error: CandleErr::ReadSize }
                        } else {
                            FrameRead::Rearm {
                                urb,
                                frame: CandleFrame::from_bytes(buffer.as_slice()),
                            }
                        }
                    },
                }
            },
            (FrameRead::Requeue { error, .. }, Reply::Status { ok, last_error }) => {
                let _ = candle_prepare_read(dev, *ok, *last_error);
                dev.last_error = error;
                FrameRead::Finished { ok: false, read: None }
            },
            (FrameRead::Rearm { frame, .. }, Reply::Status { ok, last_error }) => {
                let started = candle_prepare_read(dev, *ok, *last_error);
                FrameRead::Finished { ok: started, read: Some(frame) }
            },
            _ => self,
        }
    }

    fn outcome(self) -> (ok: Option<bool>) {
        match self {
            FrameRead::Finished { ok, .. } => Some(ok),
            _ => None,
        }
    }
}

/// The end of a receive, from the answers alone. A wait that names no read ends it. One that
/// names a read is followed by the question how that read ended, and by a new read into the same
/// buffer, whatever the answer: as many reads are waiting after a receive as before. A frame is
/// received where enough bytes arrived and the new read was started.
pub proof fn receive_starts_a_new_read(
    dev: CandleDevice,
    timeout_ms: u32,
    replies: Seq<Reply>,
    ok: bool,
)
    requires
        completes(FrameRead::Wait { timeout_ms }, dev, replies, ok),
    ensures
        ({
            let what = replies[0]->Wait_0;
            let made = calls(FrameRead::Wait { timeout_ms }, dev, replies);
            let (end, op) = after(FrameRead::Wait { timeout_ms }, dev, replies);
            &&& what == WAIT_TIMEOUT ==> {
                &&& replies.len() == 1
                &&& !ok
                &&& end.last_error == CandleErr::ReadTimeout
            }
            &&& what >= CANDLE_URB_COUNT && what != WAIT_TIMEOUT ==> {
                &&& replies.len() == 1
                &&& !ok
                &&& end.last_error == CandleErr::ReadWait
            }
            &&& what < CANDLE_URB_COUNT ==> {
                let transferred = replies[1]->transferred;
                let arrived = transferred is Some && transferred.unwrap() >= 20;
                &&& replies.len() == 3
                &&& made[1] == (Request::OverlappedResult {
                    usb: dev.winusb_handle,
                    urb: what as usize,
                })
                &&& made[2] == read_request(dev, what as int)
                &&& ok == (arrived && read_started(replies[2]))
                &&& arrived ==> op->read == Some(
                    CandleFrame::of_bytes(replies[1]->Overlapped_buffer@),
                )
                &&& end.last_error == if ok {
                    CandleErr::Success
                } else if arrived {
                    CandleErr::PrepareRead
                } else if transferred is Some {
                    CandleErr::ReadSize
                } else {
                    CandleErr::ReadResult
                }
            }
            &&& end == (CandleDevice { last_error: end.last_error, ..dev })
        }),
{
    let op0 = FrameRead::Wait { timeout_ms };
    completes_by_steps(op0, dev, replies, ok);
    let (d1, op1) = op0.next(dev, replies[0]);
    let r1 = replies.drop_first();
    completes_by_steps(op1, d1, r1, ok);
    if op1 is Result {
        let (d2, op2) = op1.next(d1, r1[0]);
        let r2 = r1.drop_first();
        completes_by_steps(op2, d2, r2, ok);
        let (d3, op3) = op2.next(d2, r2[0]);
        completes_by_steps(op3, d3, r2.drop_first(), ok);
        assert(r1[0] == replies[1] && r2[0] == replies[2]);
    }
}

/// The end of a send, from the answer alone: one call, with the frame; the device keeps all but
/// its last error.
pub proof fn send_makes_one_call(
    dev: CandleDevice,
    frame: CandleFrame,
    replies: Seq<Reply>,
    ok: bool,
)
    requires
        completes(FrameSend::Write { frame }, dev, replies, ok),
    ensures
        replies.len() == 1,
        ok == replies[0]->Status_ok,
        calls(FrameSend::Write { frame }, dev, replies) == seq![
            Request::WritePipe { usb: dev.winusb_handle, pipe: dev.bulk_out_pipe, frame },
        ],
        after(FrameSend::Write { frame }, dev, replies).0 == (CandleDevice {
            last_error: if ok {
                CandleErr::Success
            } else {
                CandleErr::SendFrame
            },
            ..dev
        }),
{
    let op0 = FrameSend::Write { frame };
    completes_by_steps(op0, dev, replies, ok);
    let (d1, op1) = op0.next(dev, replies[0]);
    completes_by_steps(op1, d1, replies.drop_first(), ok);
}

/// The numbers of the system, and how many reads are kept waiting.
pub proof fn system_numbers_of_transfers()
    ensures
        ERROR_IO_PENDING == 997,
        WAIT_TIMEOUT == 258,
        WAIT_OBJECT_0 == 0,
        CANDLE_URB_COUNT == 30,
        CANDLE_FRAME_SIZE == 24,
{
}

/// A read is asked for on the interface of the device, from the pipe that it reads from, into the
/// buffer asked for, with the event of that buffer.
pub proof fn read_goes_to_its_buffer(dev: CandleDevice, urb: int)
    requires
        0 <= urb < 30,
    ensures
        read_request(dev, urb) matches Request::ReadPipe { usb, pipe, urb: buffer, event } && {
            &&& usb == dev.winusb_handle
            &&& pipe == dev.bulk_in_pipe
            &&& buffer == urb
            &&& event == dev.rxevents[urb]
        },
{
}

/// What the call that starts a read leaves: the read counts as started exactly where the call failed
/// and the code is not 997; the device keeps all but its last error, which says whether it counts.
pub proof fn failed_start_counts(dev: CandleDevice, ok: bool, last_error: Option<u32>)
    ensures
        ({
            let reply = Reply::Status { ok, last_error };
            &&& read_started(reply) <==> !ok && last_error != Some(997u32)
            &&& read_started(reply) ==> after_prepare(dev, reply) == (CandleDevice {
                last_error: CandleErr::Success,
                ..dev
            })
            &&& !read_started(reply) ==> after_prepare(dev, reply) == (CandleDevice {
                last_error: CandleErr::PrepareRead,
                ..dev
            })
        }),
{
}

/// A frame is written with the channel that it is sent on and without an echo, and else unchanged.
pub proof fn sent_frame_keeps_its_fields(frame: CandleFrame, channel: u8)
    ensures
        ({
            let sent = outgoing(frame, channel);
            &&& sent.echo_id == 0
            &&& sent.channel == channel
            &&& sent.can_id == frame.can_id
            &&& sent.can_dlc == frame.can_dlc
            &&& sent.flags == frame.flags
            &&& sent.reserved == frame.reserved
            &&& sent.timestamp_us == frame.timestamp_us
            &&& forall|i: int| 0 <= i < 8 ==> #[trigger] sent.data[i] == frame.data[i]
        }),
{
}

/// A receive waits for the events of the device, for as long as it was asked to. Where the event
/// `u` ended the wait, it asks how the read into the buffer `u` ended, and starts a read into the
/// same buffer, with the same event; where it names no read, it makes no other call.
pub proof fn receive_makes_these_calls(
    dev: CandleDevice,
    timeout_ms: u32,
    replies: Seq<Reply>,
    ok: bool,
)
    requires
        completes(FrameRead::Wait { timeout_ms }, dev, replies, ok),
    ensures
        ({
            let made = calls(FrameRead::Wait { timeout_ms }, dev, replies);
            let u = replies[0]->Wait_0;
            &&& made.len() == if u < 30 {
                3int
            } else {
                1
            }
            &&& made[0] == (Request::WaitEvents { events: dev.rxevents, timeout_ms })
            &&& u < 30 ==> {
                &&& made[1] == (Request::OverlappedResult {
                    usb: dev.winusb_handle,
                    urb: u as usize,
                })
                &&& made[2] == (Request::ReadPipe {
                    usb: dev.winusb_handle,
                    pipe: dev.bulk_in_pipe,
                    urb: u as usize,
                    event: dev.rxevents[u as int],
                })
            }
        }),
{
    receive_starts_a_new_read(dev, timeout_ms, replies, ok);
    completes_by_steps(FrameRead::Wait { timeout_ms }, dev, replies, ok);
    calls_match_replies(FrameRead::Wait { timeout_ms }, dev, replies);
}

/// What a receive gives: a frame exactly where an event ended the wait, at least twenty bytes
/// arrived, and the call that starts the next read failed with another code than 997. The frame is
/// the one that the first 24 bytes of the buffer stand for. Else it gives the error for what went
/// wrong, and none of the other fields of the device changes.
pub proof fn receive_gives_what_arrived(
    dev: CandleDevice,
    timeout_ms: u32,
    replies: Seq<Reply>,
    ok: bool,
)
    requires
        completes(FrameRead::Wait { timeout_ms }, dev, replies, ok),
    ensures
        ({
            let u = replies[0]->Wait_0;
            let n = replies[1]->transferred;
            let (end, last) = after(FrameRead::Wait { timeout_ms }, dev, replies);
            let started = !replies[2]->Status_ok && replies[2]->Status_last_error != Some(997u32);
            let arrived = n is Some && n.unwrap() >= 20;
            &&& ok <==> u < 30 && arrived && started
            &&& ok ==> {
                &&& last->read is Some
                &&& last->read.unwrap() == CandleFrame::of_bytes(replies[1]->Overlapped_buffer@)
            }
            &&& end == (CandleDevice { last_error: end.last_error, ..dev })
            &&& end.last_error == if ok {
                CandleErr::Success
            } else if u == 258 {
                CandleErr::ReadTimeout
            } else if u >= 30 {
                CandleErr::ReadWait
            } else if n is None {
                CandleErr::ReadResult
            } else if !arrived {
                CandleErr::ReadSize
            } else {
                CandleErr::PrepareRead
            }
        }),
{
    receive_starts_a_new_read(dev, timeout_ms, replies, ok);
}

} // verus!
