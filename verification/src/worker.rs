//! The worker that owns an open device: it sends what is asked for and hands on what arrives.

use crate::can::{padded, CanError, CanId, CanMessage};
use crate::device::{last_error_of, CandleDevice};
use crate::error::{CandleErr, ReceiveError, SendError};
use crate::frame::{
    carried_frame_is_no_error, carries, frame_fields_stand_in_order, frame_holds_the_message,
    frame_of, frame_reads_back, frame_to_message, message_holds_the_frame,
    message_survives_the_wire, message_to_frame, CandleFrame, CANDLE_ID_ERR,
};
use crate::transfer::{
    candle_frame_send, receive_starts_a_new_read, send_makes_one_call, FrameRead, FrameSend,
};
use crate::usb::{after, calls, completes, Reply, Request};
use crate::wire::stands_at;
use vstd::prelude::*;
use vstd::string::*;

verus! {

/// How long a receive waits.
pub const READ_TIMEOUT_MS: u32 = 10;

/// How many events can wait for the receiver.
pub const RECEIVE_QUEUE: usize = 1024;

/// Starts to send a message on a channel of a device.
pub fn send_frame(device: Option<&CandleDevice>, channel: u8, msg: &CanMessage) -> (op: FrameSend)
    requires
        msg.wf(),
    ensures
        op == if device is Some {
            FrameSend::Write { frame: frame_of(*msg, channel) }
        } else {
            FrameSend::Finished { ok: false }
        },
{
    let mut frame = message_to_frame(msg, channel);
    candle_frame_send(device, channel, Some(&mut frame))
}

/// What is reported of a message: nothing where its frame was written, and else the message and
/// the last error of the device.
pub open spec fn reported(
    ok: bool,
    device: Option<CandleDevice>,
    msg: CanMessage,
    r: Result<(), SendError>,
) -> bool {
    &&& ok <==> r is Ok
    &&& r matches Err(e) ==> {
        &&& e.message == msg
        &&& e.details@ == "send failed: "@ + match device {
            Some(d) => d.last_error.label(),
            None => CandleErr::Unknown.label(),
        }
    }
}

/// The result is one that can be reported of a message.
pub open spec fn reportable(msg: CanMessage, r: Result<(), SendError>) -> bool {
    exists|ok: bool, device: Option<CandleDevice>| reported(ok, device, msg, r)
}

/// What is reported of a message: `ok` is whether its frame was written.
pub fn send_frame_result(ok: bool, device: Option<&CandleDevice>, msg: CanMessage) -> (r: Result<
    (),
    SendError,
>)
    ensures
        reported(
            ok,
            match device {
                Some(d) => Some(*d),
                None => None,
            },
            msg,
            r,
        ),
        reportable(msg, r),
{
    let r = if ok {
        Ok(())
    } else {
        let mut details = "send failed: ".to_owned();
        details.append(last_error_of(device).name());
        Err(SendError { message: msg, details })
    };
    let ghost held = match device {
        Some(d) => Some(*d),
        None => None,
    };
    assert(reported(ok, held, msg, r));
    r
}

/// What a receive came to: `ok` is whether it succeeded, and `frame` what it left.
pub open spec fn received(
    ok: bool,
    device: Option<CandleDevice>,
    frame: CandleFrame,
    r: Result<Option<CanMessage>, ReceiveError>,
) -> bool {
    let code = match device {
        Some(d) => d.last_error,
        None => CandleErr::Unknown,
    };
    if !ok {
        if code == CandleErr::ReadTimeout {
            r == Ok::<Option<CanMessage>, ReceiveError>(None)
        } else {
            r == Err::<Option<CanMessage>, ReceiveError>(ReceiveError::NativeError { code })
        }
    } else if frame.is_error() {
        r == Err::<Option<CanMessage>, ReceiveError>(
            ReceiveError::CanError { source: CanError::Other },
        )
    } else {
        &&& r is Ok
        &&& r->Ok_0 is Some
        &&& carries(frame, r->Ok_0.unwrap())
    }
}

/// What is reported of a receive: nothing where the time ran out.
pub fn read_frame(ok: bool, device: Option<&CandleDevice>, frame: &CandleFrame) -> (r: Result<
    Option<CanMessage>,
    ReceiveError,
>)
    requires
        ok ==> frame.readable(),
    ensures
        received(
            ok,
            match device {
                Some(d) => Some(*d),
                None => None,
            },
            *frame,
            r,
        ),
{
    if !ok {
        let code = last_error_of(device);
        if code == CandleErr::ReadTimeout {
            return Ok(None);
        }
        return Err(ReceiveError::NativeError { code });
    }
    if (frame.can_id & CANDLE_ID_ERR) != 0 {
        return Err(ReceiveError::CanError { source: CanError::Other });
    }
    Ok(Some(frame_to_message(frame)))
}

/// What is sent is received: where a receive succeeds on a buffer that starts with the bytes that
/// a send writes for a message, its frame can be read, and what is reported is that message, as
/// far as a frame carries it. Where the data of the message is zero past its payload, the two are
/// equal.
pub proof fn sent_message_is_received(
    sent: CanMessage,
    channel: u8,
    rest: Seq<u8>,
    dev: CandleDevice,
    timeout_ms: u32,
    replies: Seq<Reply>,
    r: Result<Option<CanMessage>, ReceiveError>,
)
    requires
        sent.wf(),
        sent.id.in_range(),
        completes(FrameRead::Wait { timeout_ms }, dev, replies, true),
        replies[1]->Overlapped_buffer@ == frame_of(sent, channel).bytes() + rest,
        ({
            let (end, op) = after(FrameRead::Wait { timeout_ms }, dev, replies);
            received(true, Some(end), op->read.unwrap(), r)
        }),
    ensures
        after(FrameRead::Wait { timeout_ms }, dev, replies).1->read is Some,
        after(FrameRead::Wait { timeout_ms }, dev, replies).1->read.unwrap().readable(),
        r matches Ok(Some(read)) && {
            &&& read.id == sent.id
            &&& read.rtr == sent.rtr
            &&& sent.rtr ==> read.dlc == 0
            &&& !sent.rtr ==> read.payload() == sent.payload()
            &&& (sent.rtr ==> sent.dlc == 0) && sent.data@ == padded(sent.payload()) ==> read
                == sent
        },
{
    receive_starts_a_new_read(dev, timeout_ms, replies, true);
    let frame = after(FrameRead::Wait { timeout_ms }, dev, replies).1->read.unwrap();
    frame_reads_back(frame_of(sent, channel), rest);
    carried_frame_is_no_error(sent, channel);
    message_survives_the_wire(sent, channel, rest, r->Ok_0.unwrap());
}

/// What is asked of the worker.
#[derive(Debug, Clone, Copy)]
pub enum Command {
    Send { message: CanMessage },
    Shutdown,
}

/// What the worker hands to the receiver.
pub type ReceiverEvent = Result<CanMessage, ReceiveError>;

/// What the worker does next.
#[derive(Debug)]
pub enum Worker {
    /// Look for a command, without waiting.
    Poll,
    /// Send a message.
    Send { message: CanMessage },
    /// Tell who asked for it what became of the message.
    Answer { result: Result<(), SendError> },
    /// Receive a frame.
    Read { timeout_ms: u32 },
    /// Hand an event to the receiver.
    Deliver { event: ReceiverEvent },
    /// Stop the channel.
    StopChannel,
    /// Close the device.
    CloseDevice,
    /// Give up the device.
    FreeDevice,
    /// End.
    Exit,
}

/// What came of it.
#[derive(Debug)]
pub enum WorkerEvent {
    /// The command that was found, if any.
    Polled { command: Option<Command> },
    /// What became of the message.
    Sent { result: Result<(), SendError> },
    /// What the receive came to.
    Received { outcome: Result<Option<CanMessage>, ReceiveError> },
    /// It was done; its result is of no interest.
    Done,
}

impl Worker {
    /// The event is one that can come of what the worker does.
    pub open spec fn expects(self, event: WorkerEvent) -> bool {
        match self {
            Worker::Poll => event is Polled,
            Worker::Send { .. } => event is Sent,
            Worker::Answer { .. } => event is Done,
            Worker::Read { .. } => event is Received,
            Worker::Deliver { .. } => event is Done,
            Worker::StopChannel => event is Done,
            Worker::CloseDevice => event is Done,
            Worker::FreeDevice => event is Done,
            Worker::Exit => false,
        }
    }

    /// What the worker does after the event.
    pub open spec fn next(self, event: WorkerEvent) -> Worker {
        match (self, event) {
            (Worker::Poll, WorkerEvent::Polled { command }) => match command {
                Some(Command::Send { message }) => Worker::Send { message },
                Some(Command::Shutdown) => Worker::StopChannel,
                None => Worker::Read { timeout_ms: READ_TIMEOUT_MS },
            },
            (Worker::Send { .. }, WorkerEvent::Sent { result }) => Worker::Answer { result },
            (Worker::Answer { .. }, WorkerEvent::Done) => Worker::Poll,
            (Worker::Read { .. }, WorkerEvent::Received { outcome }) => match outcome {
                Ok(Some(message)) => Worker::Deliver { event: Ok(message) },
                Ok(None) => Worker::Poll,
                Err(e) => Worker::Deliver { event: Err(e) },
            },
            (Worker::Deliver { .. }, WorkerEvent::Done) => Worker::Poll,
            (Worker::StopChannel, WorkerEvent::Done) => Worker::CloseDevice,
            (Worker::CloseDevice, WorkerEvent::Done) => Worker::FreeDevice,
            (Worker::FreeDevice, WorkerEvent::Done) => Worker::Exit,
            _ => self,
        }
    }

    /// Whether the event is one that can come of what the worker does.
    pub fn fits(&self, event: &WorkerEvent) -> (b: bool)
        ensures
            b == self.expects(*event),
    {
        match (self, event) {
            (Worker::Poll, WorkerEvent::Polled { .. }) => true,
            (Worker::Send { .. }, WorkerEvent::Sent { .. }) => true,
            (Worker::Answer { .. }, WorkerEvent::Done) => true,
            (Worker::Read { .. }, WorkerEvent::Received { .. }) => true,
            (Worker::Deliver { .. }, WorkerEvent::Done) => true,
            (Worker::StopChannel, WorkerEvent::Done) => true,
            (Worker::CloseDevice, WorkerEvent::Done) => true,
            (Worker::FreeDevice, WorkerEvent::Done) => true,
            _ => false,
        }
    }
}

/// One turn of the worker: what to do after the event that came of what it did.
pub fn worker_loop(did: Worker, event: WorkerEvent) -> (next: Worker)
    requires
        did.expects(event),
    ensures
        next == did.next(event),
{
    match (did, event) {
        (Worker::Poll, WorkerEvent::Polled { command }) => match command {
            Some(Command::Send { message }) => Worker::Send { message },
            Some(Command::Shutdown) => Worker::StopChannel,
            None => Worker::Read { timeout_ms: READ_TIMEOUT_MS },
        },
        (Worker::Send { .. }, WorkerEvent::Sent { result }) => Worker::Answer { result },
        (Worker::Answer { .. }, WorkerEvent::Done) => Worker::Poll,
        (Worker::Read { .. }, WorkerEvent::Received { outcome }) => match outcome {
            Ok(Some(message)) => Worker::Deliver { event: Ok(message) },
            Ok(None) => Worker::Poll,
            Err(e) => Worker::Deliver { event: Err(e) },
        },
        (Worker::Deliver { .. }, WorkerEvent::Done) => Worker::Poll,
        (Worker::StopChannel, WorkerEvent::Done) => Worker::CloseDevice,
        (Worker::CloseDevice, WorkerEvent::Done) => Worker::FreeDevice,
        (Worker::FreeDevice, WorkerEvent::Done) => Worker::Exit,
        _ => Worker::Exit,
    }
}

/// The events come, one after the other, of what the worker does from `start` on.
pub open spec fn expected(start: Worker, events: Seq<WorkerEvent>) -> bool
    decreases events.len(),
{
    events.len() == 0 || start.expects(events[0]) && expected(
        start.next(events[0]),
        events.drop_first(),
    )
}

/// What the worker does from `start` on, the last thing not yet done.
pub open spec fn doings(start: Worker, events: Seq<WorkerEvent>) -> Seq<Worker>
    decreases events.len(),
{
    if events.len() == 0 {
        seq![start]
    } else {
        seq![start] + doings(start.next(events[0]), events.drop_first())
    }
}

/// The results of sends among some events, in order.
pub open spec fn results(events: Seq<WorkerEvent>) -> Seq<Result<(), SendError>>
    decreases events.len(),
{
    if events.len() == 0 {
        Seq::empty()
    } else {
        let rest = results(events.drop_first());
        match events[0] {
            WorkerEvent::Sent { result } => seq![result] + rest,
            _ => rest,
        }
    }
}

/// The answers among what the worker does, in order.
pub open spec fn answers(doings: Seq<Worker>) -> Seq<Result<(), SendError>>
    decreases doings.len(),
{
    if doings.len() == 0 {
        Seq::empty()
    } else {
        let rest = answers(doings.drop_first());
        match doings[0] {
            Worker::Answer { result } => seq![result] + rest,
            _ => rest,
        }
    }
}

/// The messages that were asked to be sent, in order.
pub open spec fn requested(events: Seq<WorkerEvent>) -> Seq<CanMessage>
    decreases events.len(),
{
    if events.len() == 0 {
        Seq::empty()
    } else {
        let rest = requested(events.drop_first());
        match events[0] {
            WorkerEvent::Polled { command: Some(Command::Send { message }) } => {
                seq![message] + rest
            },
            _ => rest,
        }
    }
}

/// The messages that the worker sends, in order.
pub open spec fn sends(doings: Seq<Worker>) -> Seq<CanMessage>
    decreases doings.len(),
{
    if doings.len() == 0 {
        Seq::empty()
    } else {
        let rest = sends(doings.drop_first());
        match doings[0] {
            Worker::Send { message } => seq![message] + rest,
            _ => rest,
        }
    }
}

/// What arrived among some events, in order: messages and errors, but not receives whose time
/// ran out.
pub open spec fn arrived(events: Seq<WorkerEvent>) -> Seq<ReceiverEvent>
    decreases events.len(),
{
    if events.len() == 0 {
        Seq::empty()
    } else {
        let rest = arrived(events.drop_first());
        match events[0] {
            WorkerEvent::Received { outcome: Ok(Some(message)) } => {
                seq![Ok::<CanMessage, ReceiveError>(message)] + rest
            },
            WorkerEvent::Received { outcome: Err(e) } => {
                seq![Err::<CanMessage, ReceiveError>(e)] + rest
            },
            _ => rest,
        }
    }
}

/// What the worker hands to the receiver, in order.
pub open spec fn deliveries(doings: Seq<Worker>) -> Seq<ReceiverEvent>
    decreases doings.len(),
{
    if doings.len() == 0 {
        Seq::empty()
    } else {
        let rest = deliveries(doings.drop_first());
        match doings[0] {
            Worker::Deliver { event } => seq![event] + rest,
            _ => rest,
        }
    }
}

/// From a worker that is about to look for a command: it sends the messages that it is asked to
/// send, answers each with what became of it, and hands on what arrives, all in order, with
/// nothing left out and nothing added.
pub proof fn worker_loses_nothing(events: Seq<WorkerEvent>)
    requires
        expected(Worker::Poll, events),
    ensures
        sends(doings(Worker::Poll, events)) == requested(events),
        answers(doings(Worker::Poll, events)) == results(events),
        deliveries(doings(Worker::Poll, events)) == arrived(events),
{
    passes_on(Worker::Poll, events);
}

proof fn passes_on(start: Worker, events: Seq<WorkerEvent>)
    requires
        expected(start, events),
    ensures
        ({
            let done = doings(start, events);
            &&& done.len() > 0 && done[0] == start
            &&& sends(done.drop_first()) == requested(events)
            &&& answers(done.drop_first()) == results(events)
            &&& deliveries(done.drop_first()) == arrived(events)
        }),
    decreases events.len(),
{
    let done = doings(start, events);
    if events.len() == 0 {
        assert(done.drop_first() =~= Seq::empty());
    } else {
        let next = start.next(events[0]);
        passes_on(next, events.drop_first());
        assert(done.drop_first() =~= doings(next, events.drop_first()));
    }
}

/// The worker is giving up the device, or has done so.
pub open spec fn winds_down(w: Worker) -> bool {
    w is StopChannel || w is CloseDevice || w is FreeDevice || w is Exit
}

/// A worker that ends has been told to shut down; it then stops the channel, closes the device
/// and gives it up, each once and in this order, and does nothing else from there on.
pub proof fn worker_ends_by_shutting_down(events: Seq<WorkerEvent>)
    requires
        expected(Worker::Poll, events),
        doings(Worker::Poll, events).last() is Exit,
    ensures
        ({
            let done = doings(Worker::Poll, events);
            let n = done.len() as int;
            &&& n == events.len() + 1 && n >= 5
            &&& events[n - 5] == (WorkerEvent::Polled { command: Some(Command::Shutdown) })
            &&& done[n - 4] == Worker::StopChannel
            &&& done[n - 3] == Worker::CloseDevice
            &&& done[n - 2] == Worker::FreeDevice
            &&& forall|i: int| 0 <= i < n - 4 ==> !winds_down(#[trigger] done[i])
        }),
{
    ends_by_shutting_down(Worker::Poll, events);
}

/// The number of messages that the worker has taken up and not sent.
pub open spec fn unsent(w: Worker) -> nat {
    if w is Send {
        1
    } else {
        0
    }
}

proof fn sends_are_counted(start: Worker, events: Seq<WorkerEvent>)
    requires
        expected(start, events),
    ensures
        requested(events).len() + unsent(start) == results(events).len() + unsent(
            doings(start, events).last(),
        ),
    decreases events.len(),
{
    if events.len() > 0 {
        let next = start.next(events[0]);
        let rest = events.drop_first();
        sends_are_counted(next, rest);
        passes_on(next, rest);
        assert(doings(start, events).last() == doings(next, rest).last());
    }
}

/// A worker that is not in the middle of a send has answered every message that it was asked to
/// send; so has one that has ended.
pub proof fn worker_answers_every_send(events: Seq<WorkerEvent>)
    requires
        expected(Worker::Poll, events),
        !(doings(Worker::Poll, events).last() is Send),
    ensures
        answers(doings(Worker::Poll, events)).len() == requested(events).len(),
{
    sends_are_counted(Worker::Poll, events);
    worker_loses_nothing(events);
}

proof fn ends_by_shutting_down(start: Worker, events: Seq<WorkerEvent>)
    requires
        !winds_down(start),
        expected(start, events),
        doings(start, events).last() is Exit,
    ensures
        ({
            let done = doings(start, events);
            let n = done.len() as int;
            &&& n == events.len() + 1 && n >= 5
            &&& events[n - 5] == (WorkerEvent::Polled { command: Some(Command::Shutdown) })
            &&& done[n - 4] == Worker::StopChannel
            &&& done[n - 3] == Worker::CloseDevice
            &&& done[n - 2] == Worker::FreeDevice
            &&& forall|i: int| 0 <= i < n - 4 ==> !winds_down(#[trigger] done[i])
        }),
    decreases events.len(),
{
    let done = doings(start, events);
    let e1 = events.drop_first();
    let w1 = start.next(events[0]);
    let d1 = doings(w1, e1);
    assert(done =~= seq![start] + d1);
    if winds_down(w1) {
        reveal_with_fuel(doings, 5);
        reveal_with_fuel(expected, 5);
        let e2 = e1.drop_first();
        let e3 = e2.drop_first();
        let e4 = e3.drop_first();
        assert(w1 is StopChannel);
        assert(e1.len() > 0);
        assert(e2.len() > 0);
        assert(e3.len() > 0);
        assert(e4.len() == 0);
    } else {
        assert(d1.len() > 0 && done.last() == d1.last()) by {
            passes_on(w1, e1);
        }
        ends_by_shutting_down(w1, e1);
        assert forall|i: int| 1 <= i < done.len() implies done[i] == d1[i - 1] by {}
    }
}

/// Every send among the events reports what can be reported of the message that was being sent.
pub open spec fn reports_truly(start: Worker, events: Seq<WorkerEvent>) -> bool
    decreases events.len(),
{
    events.len() == 0 || {
        &&& match (start, events[0]) {
            (Worker::Send { message }, WorkerEvent::Sent { result }) => reportable(message, result),
            _ => true,
        }
        &&& reports_truly(start.next(events[0]), events.drop_first())
    }
}

/// The messages that are sent from `start` on, with the one that is being sent there.
pub open spec fn asked_from(start: Worker, events: Seq<WorkerEvent>) -> Seq<CanMessage> {
    match start {
        Worker::Send { message } => seq![message] + requested(events),
        _ => requested(events),
    }
}

proof fn reports_stay_true(start: Worker, events: Seq<WorkerEvent>)
    requires
        expected(start, events),
        reports_truly(start, events),
    ensures
        results(events).len() <= asked_from(start, events).len(),
        forall|i: int|
            0 <= i < results(events).len() ==> reportable(
                asked_from(start, events)[i],
                #[trigger] results(events)[i],
            ),
    decreases events.len(),
{
    if events.len() > 0 {
        let next = start.next(events[0]);
        let rest = events.drop_first();
        reports_stay_true(next, rest);
        let asked = asked_from(start, events);
        let later = asked_from(next, rest);
        if events[0] is Sent {
            assert(asked =~= seq![asked[0]] + later);
            assert forall|i: int| 0 <= i < results(events).len() implies reportable(
                asked[i],
                #[trigger] results(events)[i],
            ) by {
                if i > 0 {
                    assert(results(events)[i] == results(rest)[i - 1]);
                }
            }
        } else {
            assert(asked =~= later);
        }
    }
}

/// Each answer is about the message that was asked for at the same place: where the sends report
/// what `send_frame_result` can give for the message being sent, the answer `i` is one that can be
/// reported of the message `i`, and an error in it carries that very message.
pub proof fn answers_are_about_their_messages(events: Seq<WorkerEvent>)
    requires
        expected(Worker::Poll, events),
        reports_truly(Worker::Poll, events),
    ensures
        ({
            let given = answers(doings(Worker::Poll, events));
            let asked = requested(events);
            &&& given.len() <= asked.len()
            &&& forall|i: int|
                0 <= i < given.len() ==> {
                    &&& reportable(asked[i], #[trigger] given[i])
                    &&& given[i] matches Err(e) ==> e.message == asked[i]
                }
        }),
{
    worker_loses_nothing(events);
    reports_stay_true(Worker::Poll, events);
}

/// How long a receive waits, and how many events can wait for the receiver.
pub proof fn worker_numbers()
    ensures
        READ_TIMEOUT_MS == 10,
        RECEIVE_QUEUE == 1024,
{
}

/// What is reported of a receive. One that failed gives nothing where the time ran out, and else
/// the last error of the device, which is `Unknown` where there is none. One that succeeded gives
/// the error of a frame that reports one, and else the message in the frame: its payload is the
/// first bytes of the data of the frame, each at its place, whatever the other fields of the frame.
pub proof fn receive_reports_the_frame(
    ok: bool,
    device: Option<CandleDevice>,
    frame: CandleFrame,
    r: Result<Option<CanMessage>, ReceiveError>,
)
    requires
        received(ok, device, frame, r),
        frame.can_id & 0x4000_0000 != 0 || frame.can_dlc <= 8,
    ensures
        !ok ==> {
            let code = if device is Some {
                device.unwrap().last_error
            } else {
                CandleErr::Unknown
            };
            &&& code is ReadTimeout ==> r == Ok::<Option<CanMessage>, ReceiveError>(None)
            &&& !(code is ReadTimeout) ==> r == Err::<Option<CanMessage>, ReceiveError>(
                ReceiveError::NativeError { code },
            )
        },
        ok && frame.can_id & 0x2000_0000 != 0 ==> r == Err::<Option<CanMessage>, ReceiveError>(
            ReceiveError::CanError { source: CanError::Other },
        ),
        ok && frame.can_id & 0x2000_0000 == 0 ==> {
            let msg = r->Ok_0.unwrap();
            &&& r is Ok
            &&& r->Ok_0 is Some
            &&& msg.rtr <==> frame.can_id & 0x4000_0000 != 0
            &&& msg.rtr ==> msg.dlc == 0
            &&& !msg.rtr ==> {
                &&& msg.dlc == frame.can_dlc
                &&& forall|i: int|
                    0 <= i < frame.can_dlc ==> #[trigger] msg.data[i] == frame.data[i]
            }
            &&& if frame.can_id & 0x8000_0000 != 0 {
                msg.id == CanId::Extended(frame.can_id & 0x1FFF_FFFF)
            } else {
                msg.id matches CanId::Std(n) && n == frame.can_id & 0x7FF
            }
        },
{
    if ok && frame.can_id & 0x2000_0000 == 0 {
        message_holds_the_frame(frame, r->Ok_0.unwrap());
    }
}

/// What is reported of a message: nothing exactly where its frame was written, and else that very
/// message with the name of the last error of the device, or of `Unknown` where there is none.
pub proof fn failed_send_is_reported(
    ok: bool,
    device: Option<CandleDevice>,
    msg: CanMessage,
    r: Result<(), SendError>,
)
    requires
        reported(ok, device, msg, r),
    ensures
        ok <==> r is Ok,
        r matches Err(e) ==> {
            &&& e.message == msg
            &&& device matches Some(d) ==> e.details@ == "send failed: "@ + d.last_error.label()
            &&& device is None ==> e.details@ == "send failed: "@ + "Unknown"@
        },
{
}

/// A message goes out as it is: the send makes one call, which writes to the pipe of the device for
/// that, on its interface, 24 bytes: the number of the identifier with its flags, the length, the
/// channel, and the payload, its bytes in order from the thirteenth on, with zeros after it.
pub proof fn message_is_written_in_order(
    dev: CandleDevice,
    channel: u8,
    msg: CanMessage,
    replies: Seq<Reply>,
    ok: bool,
)
    requires
        msg.dlc <= 8,
        completes(FrameSend::Write { frame: frame_of(msg, channel) }, dev, replies, ok),
    ensures
        ({
            let made = calls(FrameSend::Write { frame: frame_of(msg, channel) }, dev, replies);
            &&& made.len() == 1
            &&& ok == replies[0]->Status_ok
            &&& made[0] matches Request::WritePipe { usb, pipe, frame } && {
                &&& usb == dev.winusb_handle
                &&& pipe == dev.bulk_out_pipe
                &&& frame.bytes().len() == 24
                &&& frame.bytes()[8] == msg.dlc
                &&& frame.bytes()[9] == channel
                &&& stands_at(frame.bytes(), 4, frame.can_id)
                &&& match (msg.id, msg.rtr) {
                    (CanId::Std(n), false) => frame.can_id == n,
                    (CanId::Std(n), true) => frame.can_id == n as u32 | 0x4000_0000,
                    (CanId::Extended(n), false) => frame.can_id == n | 0x8000_0000,
                    (CanId::Extended(n), true) => frame.can_id == n | 0x8000_0000 | 0x4000_0000,
                }
                &&& forall|i: int|
                    0 <= i < msg.dlc ==> frame.bytes()[12 + i] == #[trigger] msg.data[i]
                &&& forall|i: int| 12 + msg.dlc <= i < 20 ==> #[trigger] frame.bytes()[i] == 0
            }
        }),
{
    let frame = frame_of(msg, channel);
    send_makes_one_call(dev, frame, replies, ok);
    frame_holds_the_message(msg, channel);
    frame_fields_stand_in_order(frame);
    assert forall|i: int| 0 <= i < msg.dlc implies frame.bytes()[12 + i]
        == #[trigger] msg.data[i] by {
        assert(frame.data[i] == msg.data[i]);
    }
    assert forall|i: int| 12 + msg.dlc <= i < 20 implies #[trigger] frame.bytes()[i] == 0 by {
        assert(frame.bytes()[12 + (i - 12)] == frame.data[i - 12]);
    }
}

/// The turns of the worker. A command that is there is carried out: a message is sent and then
/// answered with what became of it, and a shutdown stops the channel, closes the device, gives it up
/// and ends. Only where no command is there is a frame received, for ten milliseconds; a message and
/// an error are handed on, and a receive whose time ran out is not. After an answer and after a
/// delivery the worker looks for the next command.
pub proof fn worker_turns(did: Worker, event: WorkerEvent)
    requires
        did.expects(event),
    ensures
        did is Poll ==> {
            &&& event is Polled
            &&& event->command is None ==> did.next(event) == (Worker::Read { timeout_ms: 10 })
            &&& event->command matches Some(Command::Send { message }) ==> did.next(event) == (
            Worker::Send { message })
            &&& event->command == Some(Command::Shutdown) ==> did.next(event) is StopChannel
        },
        did is Send ==> event is Sent && did.next(event) == (Worker::Answer {
            result: event->result,
        }),
        did is Read ==> {
            &&& event is Received
            &&& event->outcome matches Ok(Some(message)) ==> did.next(event) == (Worker::Deliver {
                event: Ok(message),
            })
            &&& event->outcome matches Ok(None) ==> did.next(event) is Poll
            &&& event->outcome matches Err(e) ==> did.next(event) == (Worker::Deliver {
                event: Err(e),
            })
        },
        did is Answer || did is Deliver ==> did.next(event) is Poll,
        did is StopChannel ==> did.next(event) is CloseDevice,
        did is CloseDevice ==> did.next(event) is FreeDevice,
        did is FreeDevice ==> did.next(event) is Exit,
        !(did is Exit),
{
}

/// What can come of what the worker does.
pub proof fn worker_expects_what_can_come(did: Worker, event: WorkerEvent)
    ensures
        did is Poll ==> (did.expects(event) <==> event is Polled),
        did is Send ==> (did.expects(event) <==> event is Sent),
        did is Read ==> (did.expects(event) <==> event is Received),
        did is Answer || did is Deliver || winds_down(did) && !(did is Exit) ==> (did.expects(event)
            <==> event is Done),
        did is Exit ==> !did.expects(event),
{
}

} // verus!
