//! Opening and closing devices.

use crate::device::{event_at, event_at_is_first, next_event, CandleDevice, CANDLE_URB_COUNT};
use crate::error::CandleErr;
use crate::open::{
    candle_dev_internal_open, open_succeeds_exactly, open_that_succeeds_releases_nothing, opened,
    opened_device_holds_what_was_found, opening_call, opening_ends_with_nine,
    opening_makes_these_calls, opens, pipe_to_read, pipe_to_write, releases, InternalOpen,
};
use crate::transfer::{
    after_prepare, candle_prepare_read, prepare_read_request, read_goes_to_its_buffer, read_request,
    read_started,
};
use crate::usb::{
    after, answered, calls, calls_match_replies, completes, completes_by_steps, Operation, Reply,
    Request,
};
use crate::wire::{CandleCapability, CandleDeviceConfig};
use vstd::prelude::*;

verus! {

/// The closing of a device.
#[derive(Debug, Clone, Copy)]
pub enum DevClose {
    /// The event `index` is to be closed.
    CloseEvent { index: usize },
    FreeInterface,
    CloseFile,
    Finished { ok: bool },
}

/// Goes on to the next event that is there, or past the events.
pub open spec fn close_from(dev: CandleDevice, from: int) -> DevClose {
    if event_at(dev.rxevents, from) < 30 {
        DevClose::CloseEvent { index: event_at(dev.rxevents, from) as usize }
    } else {
        DevClose::FreeInterface
    }
}

fn go_on_closing(dev: &CandleDevice, from: usize) -> (op: DevClose)
    requires
        from <= 30,
    ensures
        op == close_from(*dev, from as int),
        op.wf(),
{
    let index = next_event(&dev.rxevents, from);
    if index < CANDLE_URB_COUNT {
        DevClose::CloseEvent { index }
    } else {
        DevClose::FreeInterface
    }
}

/// Closes a device; refused where there is none.
pub fn candle_dev_close(device: Option<&CandleDevice>) -> (op: DevClose)
    ensures
        op == match device {
            Some(d) => close_from(*d, 0),
            None => DevClose::Finished { ok: false },
        },
        op.wf(),
{
    match device {
        Some(d) => go_on_closing(d, 0),
        None => DevClose::Finished { ok: false },
    }
}

impl Operation for DevClose {
    type State = CandleDevice;

    open spec fn wf(self) -> bool {
        self is CloseEvent ==> self->index < CANDLE_URB_COUNT
    }

    open spec fn pending(self, dev: CandleDevice) -> Option<Request> {
        match self {
            DevClose::CloseEvent { index } => Some(
                Request::CloseHandle { handle: dev.rxevents[index as int] },
            ),
            DevClose::FreeInterface => Some(Request::FreeInterface { usb: dev.winusb_handle }),
            DevClose::CloseFile => Some(Request::CloseHandle { handle: dev.device_handle }),
            DevClose::Finished { .. } => None,
        }
    }

    open spec fn next(self, dev: CandleDevice, reply: Reply) -> (CandleDevice, Self) {
        match self {
            DevClose::CloseEvent { index } => (dev, close_from(dev, index + 1)),
            DevClose::FreeInterface => (
                CandleDevice { winusb_handle: 0, ..dev },
                DevClose::CloseFile,
            ),
            DevClose::CloseFile => (
                CandleDevice { device_handle: 0, last_error: CandleErr::Success, ..dev },
                DevClose::Finished { ok: true },
            ),
            DevClose::Finished { .. } => (dev, self),
        }
    }

    open spec fn result(self) -> Option<bool> {
        match self {
            DevClose::Finished { ok } => Some(ok),
            _ => None,
        }
    }

    open spec fn calls_left(self) -> nat {
        match self {
            DevClose::CloseEvent { index } => (32 - index) as nat,
            DevClose::FreeInterface => 2,
            DevClose::CloseFile => 1,
            DevClose::Finished { .. } => 0,
        }
    }

    proof fn calls_until_the_end(self, dev: CandleDevice) {
    }

    proof fn advances(self, dev: CandleDevice, reply: Reply) {
        if let DevClose::CloseEvent { index } = self {
            event_at_is_first(dev.rxevents, index + 1);
        }
    }

    fn request(self, dev: &CandleDevice) -> (request: Option<Request>) {
        match self {
            DevClose::CloseEvent { index } => Some(
                Request::CloseHandle { handle: dev.rxevents[index] },
            ),
            DevClose::FreeInterface => Some(Request::FreeInterface { usb: dev.winusb_handle }),
            DevClose::CloseFile => Some(Request::CloseHandle { handle: dev.device_handle }),
            DevClose::Finished { .. } => None,
        }
    }

    fn step(self, dev: &mut CandleDevice, reply: &Reply) -> (op: Self) {
        match self {
            DevClose::CloseEvent { index } => go_on_closing(dev, index + 1),
            DevClose::FreeInterface => {
                dev.winusb_handle = 0;
                DevClose::CloseFile
            },
            DevClose::CloseFile => {
                dev.device_handle = 0;
                dev.last_error = CandleErr::Success;
                DevClose::Finished { ok: true }
            },
            DevClose::Finished { .. } => self,
        }
    }

    fn outcome(self) -> (ok: Option<bool>) {
        match self {
            DevClose::Finished { ok } => Some(ok),
            _ => None,
        }
    }
}

/// The opening of a device, with a read waiting on each of its buffers.
#[derive(Debug, Clone, Copy)]
pub enum DevOpen {
    /// The interface is being opened.
    Opening(InternalOpen),
    /// The event of the buffer `urb` is to be created.
    CreateEvent { urb: usize },
    /// The read into the buffer `urb` is to be started.
    PrepareRead { urb: usize },
    /// It failed; the event `index` is to be closed.
    CloseEvent { index: usize },
    Finished { ok: bool },
}

/// The opening failed: goes on to the next event that is there, or to the end.
pub open spec fn give_up_from(dev: CandleDevice, from: int) -> DevOpen {
    if event_at(dev.rxevents, from) < 30 {
        DevOpen::CloseEvent { index: event_at(dev.rxevents, from) as usize }
    } else {
        DevOpen::Finished { ok: false }
    }
}

/// Closes the events of a device from `from` on, after a failure to open it.
fn candle_close_rxurbs(dev: &CandleDevice, from: usize) -> (op: DevOpen)
    requires
        from <= 30,
    ensures
        op == give_up_from(*dev, from as int),
        op.wf(),
{
    let index = next_event(&dev.rxevents, from);
    if index < CANDLE_URB_COUNT {
        DevOpen::CloseEvent { index }
    } else {
        DevOpen::Finished { ok: false }
    }
}

/// Opens a device; refused where there is none.
pub fn candle_dev_open(device: Option<&CandleDevice>) -> (op: DevOpen)
    ensures
        op == match device {
            Some(_) => DevOpen::Opening(InternalOpen::CreateFile),
            None => DevOpen::Finished { ok: false },
        },
        op.wf(),
{
    match device {
        Some(_) => DevOpen::Opening(candle_dev_internal_open()),
        None => DevOpen::Finished { ok: false },
    }
}

impl Operation for DevOpen {
    type State = CandleDevice;

    open spec fn wf(self) -> bool {
        match self {
            DevOpen::Opening(op) => op.wf() && !(op is Finished),
            DevOpen::CreateEvent { urb } => urb < CANDLE_URB_COUNT,
            DevOpen::PrepareRead { urb } => urb < CANDLE_URB_COUNT,
            DevOpen::CloseEvent { index } => index < CANDLE_URB_COUNT,
            DevOpen::Finished { .. } => true,
        }
    }

    open spec fn pending(self, dev: CandleDevice) -> Option<Request> {
        match self {
            DevOpen::Opening(op) => op.pending(dev),
            DevOpen::CreateEvent { .. } => Some(Request::CreateEvent),
            DevOpen::PrepareRead { urb } => Some(read_request(dev, urb as int)),
            DevOpen::CloseEvent { index } => Some(
                Request::CloseHandle { handle: dev.rxevents[index as int] },
            ),
            DevOpen::Finished { .. } => None,
        }
    }

    open spec fn next(self, dev: CandleDevice, reply: Reply) -> (CandleDevice, Self) {
        match (self, reply) {
            (DevOpen::Opening(op), _) => {
                let (d, o) = op.next(dev, reply);
                match o.result() {
                    None => (d, DevOpen::Opening(o)),
                    Some(true) => (d, DevOpen::CreateEvent { urb: 0 }),
                    Some(false) => (d, DevOpen::Finished { ok: false }),
                }
            },
            (DevOpen::CreateEvent { .. }, Reply::Handle(None)) => (dev, give_up_from(dev, 0)),
            (DevOpen::CreateEvent { urb }, Reply::Handle(Some(event))) => (
                CandleDevice {
                    rxevents: vstd::array::spec_array_update(dev.rxevents, urb as int, event),
                    ..dev
                },
                DevOpen::PrepareRead { urb },
            ),
            (DevOpen::PrepareRead { urb }, Reply::Status { .. }) => {
                let d = after_prepare(dev, reply);
                if !read_started(reply) {
                    (d, give_up_from(d, 0))
                } else if urb + 1 < CANDLE_URB_COUNT {
                    (d, DevOpen::CreateEvent { urb: (urb + 1) as usize })
                } else {
                    (d, DevOpen::Finished { ok: true })
                }
            },
            (DevOpen::CloseEvent { index }, Reply::Done) => (dev, give_up_from(dev, index + 1)),
            _ => (dev, self),
        }
    }

    open spec fn result(self) -> Option<bool> {
        match self {
            DevOpen::Finished { ok } => Some(ok),
            _ => None,
        }
    }

    open spec fn calls_left(self) -> nat {
        match self {
            DevOpen::Opening(op) => 90 + op.calls_left(),
            DevOpen::CreateEvent { urb } => (90 - 2 * urb) as nat,
            DevOpen::PrepareRead { urb } => (89 - 2 * urb) as nat,
            DevOpen::CloseEvent { index } => (30 - index) as nat,
            DevOpen::Finished { .. } => 0,
        }
    }

    proof fn calls_until_the_end(self, dev: CandleDevice) {
        if let DevOpen::Opening(op) = self {
            op.calls_until_the_end(dev);
        }
    }

    proof fn advances(self, dev: CandleDevice, reply: Reply) {
        event_at_is_first(dev.rxevents, 0);
        match self {
            DevOpen::Opening(op) => {
                op.advances(dev, reply);
            },
            DevOpen::CloseEvent { index } => {
                event_at_is_first(dev.rxevents, index + 1);
            },
            _ => {},
        }
    }

    fn request(self, dev: &CandleDevice) -> (request: Option<Request>) {
        match self {
            DevOpen::Opening(op) => op.request(dev),
            DevOpen::CreateEvent { .. } => Some(Request::CreateEvent),
            DevOpen::PrepareRead { urb } => Some(prepare_read_request(dev, urb)),
            DevOpen::CloseEvent { index } => Some(
                Request::CloseHandle { handle: dev.rxevents[index] },
            ),
            DevOpen::Finished { .. } => None,
        }
    }

    fn step(self, dev: &mut CandleDevice, reply: &Reply) -> (op: Self) {
        match (self, reply) {
            (DevOpen::Opening(op), _) => {
                let op = op.step(dev, reply);
                match op.outcome() {
                    None => DevOpen::Opening(op),
                    Some(ok) => {
                        if ok {
                            DevOpen::CreateEvent { urb: 0 }
                        } else {
                            DevOpen::Finished { ok: false }
                        }
                    },
                }
            },
            (DevOpen::CreateEvent { urb }, Reply::Handle(handle)) => match handle {
                Some(event) => {
                    dev.rxevents[urb] = *event;
                    DevOpen::PrepareRead { urb }
                },
                None => candle_close_rxurbs(dev, 0),
            },
            (DevOpen::PrepareRead { urb }, Reply::Status { ok, last_error }) => {
                if !candle_prepare_read(dev, *ok, *last_error) {
                    candle_close_rxurbs(dev, 0)
                } else if urb + 1 < CANDLE_URB_COUNT {
                    DevOpen::CreateEvent { urb: urb + 1 }
                } else {
                    dev.last_error = CandleErr::Success;
                    DevOpen::Finished { ok: true }
                }
            },
            (DevOpen::CloseEvent { index }, Reply::Done) => candle_close_rxurbs(dev, index + 1),
            _ => self,
        }
    }

    fn outcome(self) -> (ok: Option<bool>) {
        match self {
            DevOpen::Finished { ok } => Some(ok),
            _ => None,
        }
    }
}

/// The calls that close the events from `from` on, each event that is there once, in order.
pub open spec fn event_closes(events: [isize; 30], from: int) -> Seq<Request>
    decreases 30 - from,
{
    if from >= 30 {
        Seq::empty()
    } else if events[from] == 0 || events[from] == -1 {
        event_closes(events, from + 1)
    } else {
        seq![Request::CloseHandle { handle: events[from] }] + event_closes(events, from + 1)
    }
}

proof fn closes_start_at_an_event(events: [isize; 30], from: int)
    requires
        0 <= from <= 30,
    ensures
        from <= event_at(events, from) <= 30,
        event_closes(events, from) == if event_at(events, from) < 30 {
            let i = event_at(events, from);
            seq![Request::CloseHandle { handle: events[i] }] + event_closes(events, i + 1)
        } else {
            Seq::empty()
        },
    decreases 30 - from,
{
    if from < 30 && (events[from] == 0 || events[from] == -1) {
        closes_start_at_an_event(events, from + 1);
    }
}

proof fn close_tail(dev: CandleDevice, from: int, replies: Seq<Reply>, ok: bool)
    requires
        0 <= from <= 30,
        completes(close_from(dev, from), dev, replies, ok),
    ensures
        ok,
        calls(close_from(dev, from), dev, replies) == event_closes(dev.rxevents, from) + seq![
            Request::FreeInterface { usb: dev.winusb_handle },
            Request::CloseHandle { handle: dev.device_handle },
        ],
        after(close_from(dev, from), dev, replies).0 == (CandleDevice {
            winusb_handle: 0,
            device_handle: 0,
            last_error: CandleErr::Success,
            ..dev
        }),
    decreases replies.len(),
{
    closes_start_at_an_event(dev.rxevents, from);
    let op = close_from(dev, from);
    completes_by_steps(op, dev, replies, ok);
    let (d1, op1) = op.next(dev, replies[0]);
    let r1 = replies.drop_first();
    if op is CloseEvent {
        close_tail(dev, op->index + 1, r1, ok);
    } else {
        completes_by_steps(op1, d1, r1, ok);
        let (d2, op2) = op1.next(d1, r1[0]);
        completes_by_steps(op2, d2, r1.drop_first(), ok);
    }
    assert(calls(op, dev, replies) =~= event_closes(dev.rxevents, from) + seq![
        Request::FreeInterface { usb: dev.winusb_handle },
        Request::CloseHandle { handle: dev.device_handle },
    ]);
}

/// Closing a device always succeeds. It closes every event that is there, then releases the
/// interface and closes the file, and makes no other call; the device then holds neither.
pub proof fn close_releases_all(dev: CandleDevice, replies: Seq<Reply>, ok: bool)
    requires
        completes(close_from(dev, 0), dev, replies, ok),
    ensures
        ok,
        calls(close_from(dev, 0), dev, replies) == event_closes(dev.rxevents, 0) + seq![
            Request::FreeInterface { usb: dev.winusb_handle },
            Request::CloseHandle { handle: dev.device_handle },
        ],
        after(close_from(dev, 0), dev, replies).0 == (CandleDevice {
            winusb_handle: 0,
            device_handle: 0,
            last_error: CandleErr::Success,
            ..dev
        }),
{
    close_tail(dev, 0, replies, ok);
}

/// The opening of a device starts with the opening of its interface: that takes the first
/// replies, and the rest follow where it succeeded.
proof fn opening_phase(
    op: InternalOpen,
    dev: CandleDevice,
    replies: Seq<Reply>,
    ok: bool,
) -> (r: (int, bool))
    requires
        op.wf(),
        !(op is Finished),
        completes(DevOpen::Opening(op), dev, replies, ok),
    ensures
        0 <= r.0 <= replies.len(),
        completes(op, dev, replies.take(r.0), r.1),
        !r.1 ==> {
            &&& r.0 == replies.len()
            &&& !ok
            &&& after(DevOpen::Opening(op), dev, replies).0 == after(op, dev, replies).0
            &&& calls(DevOpen::Opening(op), dev, replies) == calls(op, dev, replies)
        },
        r.1 ==> {
            let d = after(op, dev, replies.take(r.0)).0;
            let events = DevOpen::CreateEvent { urb: 0 };
            &&& completes(events, d, replies.skip(r.0), ok)
            &&& after(DevOpen::Opening(op), dev, replies) == after(events, d, replies.skip(r.0))
            &&& calls(DevOpen::Opening(op), dev, replies) == calls(op, dev, replies.take(r.0))
                + calls(events, d, replies.skip(r.0))
        },
    decreases replies.len(),
{
    completes_by_steps(DevOpen::Opening(op), dev, replies, ok);
    let (d, o) = op.next(dev, replies[0]);
    let rest = replies.drop_first();
    if o is Finished {
        let one = replies.take(1);
        assert(one.drop_first() =~= Seq::empty());
        assert(replies.skip(1) =~= rest);
        reveal_with_fuel(after, 2);
        reveal_with_fuel(calls, 2);
        reveal_with_fuel(answered, 2);
        assert(calls(op, dev, one) =~= seq![op.pending(dev).unwrap()]);
        if o->ok {
            (1, true)
        } else {
            completes_by_steps(DevOpen::Finished { ok: false }, d, rest, ok);
            assert(replies =~= one);
            (1, false)
        }
    } else {
        let (k, b) = opening_phase(o, d, rest, ok);
        let head = replies.take(k + 1);
        assert(head.drop_first() =~= rest.take(k));
        assert(replies.skip(k + 1) =~= rest.skip(k));
        assert(head[0] == replies[0]);
        if !b {
            assert(replies =~= head);
            assert(rest =~= rest.take(k));
        } else {
            assert(calls(DevOpen::Opening(op), dev, replies) =~= calls(op, dev, head) + calls(
                DevOpen::CreateEvent { urb: 0 },
                after(op, dev, head).0,
                replies.skip(k + 1),
            ));
        }
        (k + 1, b)
    }
}

proof fn give_up_tail(dev: CandleDevice, from: int, replies: Seq<Reply>, ok: bool)
    requires
        0 <= from <= 30,
        completes(give_up_from(dev, from), dev, replies, ok),
    ensures
        !ok,
        calls(give_up_from(dev, from), dev, replies) == event_closes(dev.rxevents, from),
        after(give_up_from(dev, from), dev, replies).0 == dev,
    decreases replies.len(),
{
    closes_start_at_an_event(dev.rxevents, from);
    let op = give_up_from(dev, from);
    completes_by_steps(op, dev, replies, ok);
    if op is CloseEvent {
        give_up_tail(dev, op->index + 1, replies.drop_first(), ok);
    }
    assert(calls(op, dev, replies) =~= event_closes(dev.rxevents, from));
}

/// The buffer `urb` has its event and its read: both were asked for, in this order, with the
/// replies `i` and `i + 1`.
pub open spec fn urb_is_ready(
    end: CandleDevice,
    replies: Seq<Reply>,
    made: Seq<Request>,
    i: int,
    urb: int,
) -> bool {
    &&& made[i] == Request::CreateEvent
    &&& replies[i]->Handle_0 == Some(end.rxevents[urb])
    &&& made[i + 1] == read_request(end, urb)
    &&& read_started(replies[i + 1])
}

/// The first `m` calls release nothing, and the others close the events of the device.
pub open spec fn ends_by_closing_events(end: CandleDevice, made: Seq<Request>, m: int) -> bool {
    &&& 0 <= m <= made.len()
    &&& forall|i: int| 0 <= i < m ==> !releases(#[trigger] made[i])
    &&& made.skip(m) == event_closes(end.rxevents, 0)
}

/// The call failed that creates an event, or the one that starts a read; the latter leaves an
/// error, and the former that of the device.
pub open spec fn event_failed(
    request: Request,
    reply: Reply,
    before: CandleDevice,
    end: CandleDevice,
) -> bool {
    ||| {
        &&& request is CreateEvent
        &&& reply->Handle_0 is None
        &&& end.last_error == CandleErr::Success || end.last_error == before.last_error
    }
    ||| {
        &&& request is ReadPipe
        &&& reply->Status_ok || reply->Status_last_error == Some(997u32)
        &&& end.last_error == CandleErr::PrepareRead
    }
}

proof fn events_phase(dev: CandleDevice, urb: int, replies: Seq<Reply>, ok: bool) -> (m: int)
    requires
        0 <= urb < 30,
        completes(DevOpen::CreateEvent { urb: urb as usize }, dev, replies, ok),
    ensures
        ({
            let op = DevOpen::CreateEvent { urb: urb as usize };
            let made = calls(op, dev, replies);
            let end = after(op, dev, replies).0;
            &&& end == (CandleDevice {
                rxevents: end.rxevents,
                last_error: end.last_error,
                ..dev
            })
            &&& forall|j: int| 0 <= j < urb ==> #[trigger] end.rxevents[j] == dev.rxevents[j]
            &&& made.len() == replies.len()
            &&& ok ==> {
                &&& replies.len() == 2 * (30 - urb)
                &&& end.last_error == CandleErr::Success
                &&& forall|j: int|
                    urb <= j < 30 ==> #[trigger] urb_is_ready(
                        end,
                        replies,
                        made,
                        2 * (j - urb),
                        j,
                    )
                &&& forall|i: int| 0 <= i < made.len() ==> !releases(#[trigger] made[i])
            }
            &&& !ok ==> ends_by_closing_events(end, made, m)
        }),
    decreases 30 - urb,
{
    let op = DevOpen::CreateEvent { urb: urb as usize };
    let made = calls(op, dev, replies);
    let end = after(op, dev, replies).0;
    completes_by_steps(op, dev, replies, ok);
    let (d1, op1) = op.next(dev, replies[0]);
    let r1 = replies.drop_first();
    if op1 is PrepareRead {
        completes_by_steps(op1, d1, r1, ok);
        let (d2, op2) = op1.next(d1, r1[0]);
        let r2 = r1.drop_first();
        assert(r1[0] == replies[1]);
        let tail = calls(op2, d2, r2);
        assert(made =~= seq![Request::CreateEvent, read_request(d1, urb)] + tail);
        assert(forall|i: int| 2 <= i < made.len() ==> #[trigger] made[i] == tail[i - 2]);
        assert(forall|i: int| 2 <= i < replies.len() ==> #[trigger] replies[i] == r2[i - 2]);
        if op2 is CreateEvent {
            let m = events_phase(d2, urb + 1, r2, ok);
            assert(end.rxevents[urb] == d2.rxevents[urb]);
            assert forall|j: int| 0 <= j < urb implies #[trigger] end.rxevents[j]
                == dev.rxevents[j] by {
                assert(d2.rxevents[j] == dev.rxevents[j]);
            }
            if ok {
                assert forall|j: int| urb <= j < 30 implies #[trigger] urb_is_ready(
                    end,
                    replies,
                    made,
                    2 * (j - urb),
                    j,
                ) by {
                    if j > urb {
                        assert(urb_is_ready(end, r2, tail, 2 * (j - (urb + 1)), j));
                    }
                }
            } else {
                assert(made.skip(m + 2) =~= tail.skip(m));
            }
            m + 2
        } else if op2 == (DevOpen::Finished { ok: true }) {
            completes_by_steps(op2, d2, r2, ok);
            0
        } else {
            assert(op2 == give_up_from(d2, 0));
            give_up_tail(d2, 0, r2, ok);
            assert(made.skip(2) =~= tail);
            calls_match_replies(op2, d2, r2);
            2
        }
    } else {
        assert(op1 == give_up_from(d1, 0));
        give_up_tail(d1, 0, r1, ok);
        assert(made.skip(1) =~= calls(op1, d1, r1));
        calls_match_replies(op1, d1, r1);
        1
    }
}

/// Where opening a device fails once its interface is open, the call that failed comes right before
/// those that close its events.
proof fn event_failure(dev: CandleDevice, urb: int, replies: Seq<Reply>) -> (m: int)
    requires
        0 <= urb < 30,
        completes(DevOpen::CreateEvent { urb: urb as usize }, dev, replies, false),
    ensures
        ({
            let op = DevOpen::CreateEvent { urb: urb as usize };
            let made = calls(op, dev, replies);
            let end = after(op, dev, replies).0;
            &&& ends_by_closing_events(end, made, m)
            &&& m > 0
            &&& event_failed(made[m - 1], replies[m - 1], dev, end)
        }),
    decreases 30 - urb,
{
    let op = DevOpen::CreateEvent { urb: urb as usize };
    let made = calls(op, dev, replies);
    completes_by_steps(op, dev, replies, false);
    let (d1, op1) = op.next(dev, replies[0]);
    let r1 = replies.drop_first();
    if op1 is PrepareRead {
        completes_by_steps(op1, d1, r1, false);
        let (d2, op2) = op1.next(d1, r1[0]);
        let r2 = r1.drop_first();
        let tail = calls(op2, d2, r2);
        assert(r1[0] == replies[1]);
        assert(made =~= seq![Request::CreateEvent, read_request(d1, urb)] + tail);
        calls_match_replies(op2, d2, r2);
        if op2 is CreateEvent {
            let m = event_failure(d2, urb + 1, r2);
            assert(forall|i: int| 2 <= i < made.len() ==> #[trigger] made[i] == tail[i - 2]);
            assert(made.skip(m + 2) =~= tail.skip(m));
            assert(made[m + 1] == tail[m - 1] && replies[m + 1] == r2[m - 1]);
            m + 2
        } else if op2 is Finished && op2->ok {
            completes_by_steps(op2, d2, r2, false);
            0
        } else {
            give_up_tail(d2, 0, r2, false);
            assert(made.skip(2) =~= tail);
            2
        }
    } else {
        give_up_tail(d1, 0, r1, false);
        assert(made.skip(1) =~= calls(op1, d1, r1));
        1
    }
}

/// A device that opens has a read waiting on every buffer: for each in turn, the event was created
/// and the read started. It holds what opening its interface found, and has released nothing.
pub proof fn opened_device_reads_on_every_buffer(dev: CandleDevice, replies: Seq<Reply>)
    requires
        completes(DevOpen::Opening(InternalOpen::CreateFile), dev, replies, true),
    ensures
        ({
            let op = DevOpen::Opening(InternalOpen::CreateFile);
            let made = calls(op, dev, replies);
            let end = after(op, dev, replies).0;
            &&& replies.len() == 69
            &&& opens(replies.take(9))
            &&& end == (CandleDevice {
                rxevents: end.rxevents,
                ..opened(dev, replies.take(9))
            })
            &&& forall|urb: int|
                0 <= urb < 30 ==> #[trigger] urb_is_ready(end, replies, made, 9 + 2 * urb, urb)
            &&& forall|i: int| 0 <= i < made.len() ==> !releases(#[trigger] made[i])
        }),
{
    let inner = InternalOpen::CreateFile;
    let op = DevOpen::Opening(inner);
    let (k, b) = opening_phase(inner, dev, replies, true);
    let head = replies.take(k);
    let rest = replies.skip(k);
    open_succeeds_exactly(dev, head, b);
    open_that_succeeds_releases_nothing(dev, head);
    calls_match_replies(inner, dev, head);
    let d = after(inner, dev, head).0;
    let _m = events_phase(d, 0, rest, true);
    let made = calls(op, dev, replies);
    let end = after(op, dev, replies).0;
    let tail = calls(DevOpen::CreateEvent { urb: 0 }, d, rest);
    assert forall|urb: int| 0 <= urb < 30 implies #[trigger] urb_is_ready(
        end,
        replies,
        made,
        9 + 2 * urb,
        urb,
    ) by {
        assert(urb_is_ready(end, rest, tail, 2 * (urb - 0), urb));
    }
}

/// The answers with which a device opens: those with which its interface opens and then, for each
/// buffer in turn, an event and a read that starts.
pub open spec fn device_opens(replies: Seq<Reply>) -> bool {
    &&& replies.len() == 69
    &&& opens(replies.take(9))
    &&& forall|urb: int| 0 <= urb < 30 ==> #[trigger] event_and_read(replies, 9 + 2 * urb)
}

/// The reply `i` gives an event, and the one after it tells that the read started.
pub open spec fn event_and_read(replies: Seq<Reply>, i: int) -> bool {
    replies[i]->Handle_0 is Some && read_started(replies[i + 1])
}

proof fn events_are_enough(dev: CandleDevice, urb: int, replies: Seq<Reply>, k: int, ok: bool)
    requires
        0 <= urb < 30,
        0 <= k <= replies.len(),
        completes(DevOpen::CreateEvent { urb: urb as usize }, dev, replies.take(k), ok),
        replies.len() >= 2 * (30 - urb),
        forall|j: int| urb <= j < 30 ==> #[trigger] event_and_read(replies, 2 * (j - urb)),
    ensures
        k == 2 * (30 - urb),
        ok,
    decreases 30 - urb,
{
    let op = DevOpen::CreateEvent { urb: urb as usize };
    let r0 = replies.take(k);
    assert(event_and_read(replies, 2 * (urb - urb)));
    completes_by_steps(op, dev, r0, ok);
    let (d1, op1) = op.next(dev, r0[0]);
    let r1 = r0.drop_first();
    completes_by_steps(op1, d1, r1, ok);
    let (d2, op2) = op1.next(d1, r1[0]);
    let r2 = r1.drop_first();
    let rest = replies.skip(2);
    assert(r2 =~= rest.take(k - 2));
    if urb + 1 < 30 {
        assert forall|j: int| urb + 1 <= j < 30 implies #[trigger] event_and_read(
            rest,
            2 * (j - (urb + 1)),
        ) by {
            assert(event_and_read(replies, 2 * (j - urb)));
        }
        events_are_enough(d2, urb + 1, rest, k - 2, ok);
    } else {
        completes_by_steps(op2, d2, r2, ok);
    }
}

/// The opening of a device that has ended within some replies, the first 69 of which are those that
/// `device_opens` describes, has ended with those, successfully.
pub proof fn device_opening_ends_with_its_answers(
    dev: CandleDevice,
    replies: Seq<Reply>,
    k: int,
    ok: bool,
)
    requires
        0 <= k <= replies.len(),
        69 <= replies.len(),
        completes(DevOpen::Opening(InternalOpen::CreateFile), dev, replies.take(k), ok),
        device_opens(replies.take(69)),
    ensures
        k == 69,
        ok,
{
    let inner = InternalOpen::CreateFile;
    let got = replies.take(k);
    let all = replies.take(69);
    let (n, b) = opening_phase(inner, dev, got, ok);
    assert(got.take(n) =~= replies.take(n));
    assert(all.take(9) =~= replies.take(9));
    opening_ends_with_nine(dev, replies, n, b);
    let d = after(inner, dev, got.take(9)).0;
    let rest = replies.skip(9);
    assert(got.skip(9) =~= rest.take(k - 9));
    assert forall|j: int| 0 <= j < 30 implies #[trigger] event_and_read(rest, 2 * (j - 0)) by {
        assert(event_and_read(all, 9 + 2 * j));
    }
    events_are_enough(d, 0, rest, k - 9, ok);
}

/// A device opens exactly with the answers that `device_opens` describes.
pub proof fn device_open_succeeds_exactly(dev: CandleDevice, replies: Seq<Reply>, ok: bool)
    requires
        completes(DevOpen::Opening(InternalOpen::CreateFile), dev, replies, ok),
    ensures
        ok <==> device_opens(replies),
{
    if ok {
        opened_device_reads_on_every_buffer(dev, replies);
        let op = DevOpen::Opening(InternalOpen::CreateFile);
        let made = calls(op, dev, replies);
        let end = after(op, dev, replies).0;
        assert forall|urb: int| 0 <= urb < 30 implies #[trigger] event_and_read(
            replies,
            9 + 2 * urb,
        ) by {
            assert(urb_is_ready(end, replies, made, 9 + 2 * urb, urb));
        }
    } else if device_opens(replies) {
        assert(replies.take(69) =~= replies);
        device_opening_ends_with_its_answers(dev, replies, 69, ok);
    }
}

/// A device whose opening fails has either failed to open its interface, of which nothing is
/// then left open, or has closed every event that it holds, each once, at the end; of its
/// interface it releases nothing in that case. The call before those was to create an event or to
/// start a read, and failed; only in the latter case is there an error.
pub proof fn failed_device_open_closes_events(dev: CandleDevice, replies: Seq<Reply>)
    requires
        completes(DevOpen::Opening(InternalOpen::CreateFile), dev, replies, false),
    ensures
        ({
            let op = DevOpen::Opening(InternalOpen::CreateFile);
            let made = calls(op, dev, replies);
            let end = after(op, dev, replies).0;
            ||| {
                &&& completes(InternalOpen::CreateFile, dev, replies, false)
                &&& made == calls(InternalOpen::CreateFile, dev, replies)
                &&& end == after(InternalOpen::CreateFile, dev, replies).0
            }
            ||| {
                &&& opens(replies.take(9))
                &&& end == (CandleDevice {
                    rxevents: end.rxevents,
                    last_error: end.last_error,
                    ..opened(dev, replies.take(9))
                })
                &&& exists|m: int|
                    {
                        &&& #[trigger] ends_by_closing_events(end, made, m)
                        &&& m > 9
                        &&& event_failed(made[m - 1], replies[m - 1], CandleDevice::zero(), end)
                    }
            }
        }),
{
    let inner = InternalOpen::CreateFile;
    let op = DevOpen::Opening(inner);
    let (k, b) = opening_phase(inner, dev, replies, false);
    let head = replies.take(k);
    let rest = replies.skip(k);
    if b {
        open_succeeds_exactly(dev, head, b);
        open_that_succeeds_releases_nothing(dev, head);
        calls_match_replies(inner, dev, head);
        let d = after(inner, dev, head).0;
        let _m = events_phase(d, 0, rest, false);
        let m = event_failure(d, 0, rest);
        calls_match_replies(DevOpen::CreateEvent { urb: 0 }, d, rest);
        let made = calls(op, dev, replies);
        let end = after(op, dev, replies).0;
        let tail = calls(DevOpen::CreateEvent { urb: 0 }, d, rest);
        assert(made.skip(9 + m) =~= tail.skip(m));
        assert(ends_by_closing_events(end, made, 9 + m));
        assert(made[9 + m - 1] == tail[m - 1] && replies[9 + m - 1] == rest[m - 1]);
    } else {
        assert(head =~= replies);
    }
}

/// The closing of events that are all there, one after the other.
proof fn closes_every_event(events: [isize; 30], from: int)
    requires
        0 <= from <= 30,
        forall|i: int| from <= i < 30 ==> !(#[trigger] events[i] == 0 || events[i] == -1),
    ensures
        event_closes(events, from) == Seq::new(
            (30 - from) as nat,
            |i: int| Request::CloseHandle { handle: events[from + i] },
        ),
    decreases 30 - from,
{
    if from < 30 {
        closes_every_event(events, from + 1);
    }
    assert(event_closes(events, from) =~= Seq::new(
        (30 - from) as nat,
        |i: int| Request::CloseHandle { handle: events[from + i] },
    ));
}

/// The handle that the reply `i` gives.
pub open spec fn handle_from(replies: Seq<Reply>, i: int) -> isize {
    replies[i]->Handle_0.unwrap()
}

/// Closing undoes opening: it releases what the opening of the device got, each handle once, the
/// events in the order in which they were created, then the interface, then the file, and makes
/// no other call. The events are handles, that is neither zero nor minus one.
pub proof fn close_undoes_open(
    dev: CandleDevice,
    opening: Seq<Reply>,
    closing: Seq<Reply>,
    ok: bool,
)
    requires
        completes(DevOpen::Opening(InternalOpen::CreateFile), dev, opening, true),
        forall|urb: int|
            0 <= urb < 30 ==> {
                let event = #[trigger] handle_from(opening, 9 + 2 * urb);
                event != 0 && event != -1
            },
        ({
            let open = after(DevOpen::Opening(InternalOpen::CreateFile), dev, opening).0;
            completes(close_from(open, 0), open, closing, ok)
        }),
    ensures
        ({
            let open = after(DevOpen::Opening(InternalOpen::CreateFile), dev, opening).0;
            let end = after(close_from(open, 0), open, closing).0;
            &&& ok
            &&& calls(close_from(open, 0), open, closing) == Seq::new(
                30,
                |urb: int| Request::CloseHandle { handle: handle_from(opening, 9 + 2 * urb) },
            ) + seq![
                Request::FreeInterface { usb: handle_from(opening, 1) },
                Request::CloseHandle { handle: handle_from(opening, 0) },
            ]
            &&& end.winusb_handle == 0
            &&& end.device_handle == 0
        }),
{
    let op = DevOpen::Opening(InternalOpen::CreateFile);
    let made = calls(op, dev, opening);
    let open = after(op, dev, opening).0;
    opened_device_reads_on_every_buffer(dev, opening);
    close_releases_all(open, closing, ok);
    assert forall|urb: int| 0 <= urb < 30 implies #[trigger] open.rxevents[urb] == handle_from(
        opening,
        9 + 2 * urb,
    ) by {
        assert(urb_is_ready(open, opening, made, 9 + 2 * urb, urb));
    }
    closes_every_event(open.rxevents, 0);
    assert(event_closes(open.rxevents, 0) =~= Seq::new(
        30,
        |urb: int| Request::CloseHandle { handle: handle_from(opening, 9 + 2 * urb) },
    ));
    assert(opening.take(9)[0] == opening[0] && opening.take(9)[1] == opening[1]);
}

/// The calls of a device that opens, and what it holds then: first those that open its interface;
/// then, for each of its thirty buffers in turn, an event is created, and a read is started on the
/// interface that was opened, from the pipe that is read from, into that buffer and with that
/// event. Its path and its state stay.
pub proof fn device_opening_makes_these_calls(dev: CandleDevice, replies: Seq<Reply>)
    requires
        completes(DevOpen::Opening(InternalOpen::CreateFile), dev, replies, true),
    ensures
        ({
            let op = DevOpen::Opening(InternalOpen::CreateFile);
            let made = calls(op, dev, replies);
            let end = after(op, dev, replies).0;
            let usb = replies[1]->Handle_0.unwrap();
            &&& replies.len() == 69
            &&& made.len() == 69
            &&& forall|i: int|
                0 <= i < 9 ==> #[trigger] made[i] == opening_call(dev, replies.take(9), i)
            &&& forall|u: int|
                0 <= u < 30 ==> {
                    &&& #[trigger] made[9 + 2 * u] == Request::CreateEvent
                    &&& Some(end.rxevents[u]) == replies[9 + 2 * u]->Handle_0
                    &&& made[10 + 2 * u] == (Request::ReadPipe {
                        usb,
                        pipe: pipe_to_read(dev, replies),
                        urb: u as usize,
                        event: end.rxevents[u],
                    })
                    &&& !replies[10 + 2 * u]->Status_ok
                    &&& replies[10 + 2 * u]->Status_last_error != Some(997u32)
                }
            &&& Some(end.device_handle) == replies[0]->Handle_0
            &&& Some(end.winusb_handle) == replies[1]->Handle_0
            &&& end.bulk_in_pipe == pipe_to_read(dev, replies)
            &&& end.bulk_out_pipe == pipe_to_write(dev, replies)
            &&& end.dconf == CandleDeviceConfig::of_bytes(replies[7]->Transfer_data@)
            &&& end.bt_const == CandleCapability::of_bytes(replies[8]->Transfer_data@)
            &&& end.last_error is Success
            &&& end.path == dev.path
            &&& end.state == dev.state
        }),
{
    let inner = InternalOpen::CreateFile;
    let op = DevOpen::Opening(inner);
    let made = calls(op, dev, replies);
    let end = after(op, dev, replies).0;
    opened_device_reads_on_every_buffer(dev, replies);
    calls_match_replies(op, dev, replies);
    let (k, b) = opening_phase(inner, dev, replies, true);
    let head = replies.take(k);
    open_succeeds_exactly(dev, head, b);
    opening_makes_these_calls(dev, head, b);
    open_that_succeeds_releases_nothing(dev, head);
    opened_device_holds_what_was_found(dev, head);
    assert forall|i: int| 0 <= i < 9 implies #[trigger] made[i] == opening_call(
        dev,
        replies.take(9),
        i,
    ) by {
        assert(made[i] == calls(inner, dev, head)[i]);
    }
    assert forall|u: int| 0 <= u < 30 implies {
        &&& #[trigger] made[9 + 2 * u] == Request::CreateEvent
        &&& Some(end.rxevents[u]) == replies[9 + 2 * u]->Handle_0
        &&& made[10 + 2 * u] == (Request::ReadPipe {
            usb: end.winusb_handle,
            pipe: end.bulk_in_pipe,
            urb: u as usize,
            event: end.rxevents[u],
        })
        &&& !replies[10 + 2 * u]->Status_ok
        &&& replies[10 + 2 * u]->Status_last_error != Some(997u32)
    } by {
        assert(urb_is_ready(end, replies, made, 9 + 2 * u, u));
        read_goes_to_its_buffer(end, u);
    }
}

/// The calls that close a device of which every event is there or none is: one for each event, and
/// those that release the interface and close the file, of the device that is closed.
pub proof fn closing_makes_these_calls(dev: CandleDevice, replies: Seq<Reply>, ok: bool)
    requires
        completes(close_from(dev, 0), dev, replies, ok),
    ensures
        ({
            let made = calls(close_from(dev, 0), dev, replies);
            let n = made.len() as int;
            &&& ok
            &&& n >= 2
            &&& made[n - 2] == (Request::FreeInterface { usb: dev.winusb_handle })
            &&& made[n - 1] == (Request::CloseHandle { handle: dev.device_handle })
            &&& (forall|i: int| 0 <= i < 30 ==> #[trigger] dev.rxevents[i] == 0) ==> n == 2
            &&& (forall|i: int|
                0 <= i < 30 ==> #[trigger] dev.rxevents[i] != 0 && dev.rxevents[i] != -1) ==> {
                &&& n == 32
                &&& forall|i: int|
                    0 <= i < 30 ==> #[trigger] made[i] == (Request::CloseHandle {
                        handle: dev.rxevents[i],
                    })
            }
        }),
{
    close_releases_all(dev, replies, ok);
    if forall|i: int| 0 <= i < 30 ==> #[trigger] dev.rxevents[i] == 0 {
        closes_no_event_that_is_not_there(dev.rxevents, 0);
    }
    if forall|i: int|
        0 <= i < 30 ==> #[trigger] dev.rxevents[i] != 0 && dev.rxevents[i] != -1 {
        closes_every_event(dev.rxevents, 0);
    }
}

proof fn closes_no_event_that_is_not_there(events: [isize; 30], from: int)
    requires
        0 <= from <= 30,
        forall|i: int| 0 <= i < 30 ==> #[trigger] events[i] == 0,
    ensures
        event_closes(events, from) == Seq::<Request>::empty(),
    decreases 30 - from,
{
    if from < 30 {
        closes_no_event_that_is_not_there(events, from + 1);
    }
}

} // verus!
