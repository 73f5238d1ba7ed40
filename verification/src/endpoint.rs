//! The two ends that a user of the adapter holds: the sender and the receiver.

use crate::can::CanMessage;
use crate::error::{ReceiveError, SendError};
use crate::worker::{reportable, ReceiverEvent};
use vstd::prelude::*;

verus! {

/// What becomes of a message: what the worker said of it, or that the worker is gone.
pub open spec fn concluded(
    msg: CanMessage,
    queued: bool,
    reply: Option<Result<(), SendError>>,
    r: Result<(), SendError>,
) -> bool {
    if queued && reply is Some {
        r == reply.unwrap()
    } else {
        &&& r is Err
        &&& r->Err_0.message == msg
        &&& r->Err_0.details@ == "worker closed"@
    }
}

/// What becomes of a message. `queued` is whether the worker could be told of it, and `reply`
/// what the worker said, `None` where it ended without a word.
pub fn send_outcome(msg: CanMessage, queued: bool, reply: Option<Result<(), SendError>>) -> (r:
    Result<(), SendError>)
    ensures
        concluded(msg, queued, reply, r),
{
    if !queued {
        return Err(SendError { message: msg, details: "worker closed".to_owned() });
    }
    match reply {
        Some(result) => result,
        None => Err(SendError { message: msg, details: "worker closed".to_owned() }),
    }
}

/// A send that fails gives back the very message, whether the worker was gone or reported the
/// failure; it succeeds exactly where the worker reports success.
pub proof fn failed_send_gives_back_its_message(
    msg: CanMessage,
    queued: bool,
    reply: Option<Result<(), SendError>>,
    r: Result<(), SendError>,
)
    requires
        concluded(msg, queued, reply, r),
        reply is Some ==> reportable(msg, reply.unwrap()),
    ensures
        r is Ok <==> queued && reply is Some && reply.unwrap() is Ok,
        r matches Err(e) ==> e.message == msg,
{
}

/// The receiving end. An error that a look without waiting came upon is kept for the next
/// receive.
#[derive(Debug, Clone, Copy)]
pub struct CandleReceiver {
    pub pending_error: Option<ReceiveError>,
}

impl CandleReceiver {
    /// What a look without waiting leaves, and what it returns; `found` is the event that was in
    /// the queue, if any.
    pub open spec fn looked(self, found: Option<ReceiverEvent>) -> (Self, Option<CanMessage>) {
        match (self.pending_error, found) {
            (None, Some(Ok(msg))) => (self, Some(msg)),
            (None, Some(Err(e))) => (CandleReceiver { pending_error: Some(e) }, None),
            _ => (self, None),
        }
    }

    /// What a receive leaves, and what it returns; `awaited` is the event that came, `None` where
    /// the worker is gone.
    pub open spec fn took(self, awaited: Option<ReceiverEvent>) -> (Self, ReceiverEvent) {
        let idle = CandleReceiver { pending_error: None };
        match self.pending_error {
            Some(e) => (idle, Err(e)),
            None => match awaited {
                Some(event) => (idle, event),
                None => (idle, Err(ReceiveError::ChannelClosed)),
            },
        }
    }

    /// A receiver that keeps no error.
    pub fn new() -> (r: Self)
        ensures
            r.pending_error is None,
    {
        CandleReceiver { pending_error: None }
    }

    /// Whether the queue is to be looked at: not while an error is kept.
    pub fn wants_event(&self) -> (b: bool)
        ensures
            b == (self.pending_error is None),
    {
        self.pending_error.is_none()
    }

    /// Looks for a message without waiting. While an error is kept, nothing was taken from the
    /// queue, and nothing is found.
    pub fn try_recv(&mut self, found: Option<ReceiverEvent>) -> (msg: Option<CanMessage>)
        requires
            old(self).pending_error is Some ==> found is None,
        ensures
            (*final(self), msg) == old(self).looked(found),
    {
        if self.pending_error.is_some() {
            return None;
        }
        match found {
            Some(Ok(msg)) => Some(msg),
            Some(Err(err)) => {
                self.pending_error = Some(err);
                None
            },
            None => None,
        }
    }

    /// Receives a message. An error that was kept comes first; nothing was then taken from the
    /// queue.
    pub fn recv(&mut self, awaited: Option<ReceiverEvent>) -> (r: ReceiverEvent)
        requires
            old(self).pending_error is Some ==> awaited is None,
        ensures
            (*final(self), r) == old(self).took(awaited),
    {
        if let Some(err) = self.pending_error.take() {
            return Err(err);
        }
        match awaited {
            Some(Ok(msg)) => Ok(msg),
            Some(Err(err)) => Err(err),
            None => Err(ReceiveError::ChannelClosed),
        }
    }
}

/// The receiver after some looks without waiting, while nothing more is taken from the queue.
pub open spec fn after_looks(r: CandleReceiver, looks: nat) -> CandleReceiver
    decreases looks,
{
    if looks == 0 {
        r
    } else {
        after_looks(r.looked(None).0, (looks - 1) as nat)
    }
}

/// An error that a look came upon is not lost: however many looks follow, each finds nothing and
/// asks for nothing from the queue, and the next receive returns the error, once.
pub proof fn error_waits_for_the_next_receive(r: CandleReceiver, error: ReceiveError, looks: nat)
    requires
        r.pending_error is None,
    ensures
        ({
            let event: Option<ReceiverEvent> = Some(Err(error));
            let kept = after_looks(r.looked(event).0, looks);
            &&& r.looked(event).1 is None
            &&& kept.pending_error == Some(error)
            &&& kept.looked(None).1 is None
            &&& kept.took(None).1 == Err::<CanMessage, ReceiveError>(error)
            &&& kept.took(None).0.pending_error is None
        }),
    decreases looks,
{
    let event: Option<ReceiverEvent> = Some(Err(error));
    let stored = r.looked(event).0;
    stays_kept(stored, error, looks);
}

proof fn stays_kept(r: CandleReceiver, error: ReceiveError, looks: nat)
    requires
        r.pending_error == Some(error),
    ensures
        after_looks(r, looks) == r,
    decreases looks,
{
    if looks > 0 {
        stays_kept(r.looked(None).0, error, (looks - 1) as nat);
    }
}

/// A call of a user on the receiver.
pub struct Call {
    /// The call is a receive, and not a look without waiting.
    pub waits: bool,
    /// An event was there: in the queue for a look, or in time before the worker was gone for a
    /// receive.
    pub there: bool,
}

/// The event that a call takes from the queue: the first one, where one was there and the receiver
/// wants one.
pub open spec fn taken(
    r: CandleReceiver,
    queue: Seq<ReceiverEvent>,
    call: Call,
) -> Option<ReceiverEvent> {
    if r.pending_error is None && call.there && queue.len() > 0 {
        Some(queue[0])
    } else {
        None
    }
}

/// What a call gives to the user: a message or an error that arrived, or `None`, where a look
/// finds nothing and where a receive tells that the worker is gone.
pub open spec fn gives(
    r: CandleReceiver,
    queue: Seq<ReceiverEvent>,
    call: Call,
) -> Option<ReceiverEvent> {
    let event = taken(r, queue, call);
    if call.waits {
        if r.pending_error is None && event is None {
            None
        } else {
            Some(r.took(event).1)
        }
    } else {
        match r.looked(event).1 {
            Some(msg) => Some(Ok(msg)),
            None => None,
        }
    }
}

/// The receiver, and what is still to come out of the queue, after a call.
pub open spec fn after_call(
    r: CandleReceiver,
    queue: Seq<ReceiverEvent>,
    call: Call,
) -> (CandleReceiver, Seq<ReceiverEvent>) {
    let event = taken(r, queue, call);
    (
        if call.waits {
            r.took(event).0
        } else {
            r.looked(event).0
        },
        if event is Some {
            queue.drop_first()
        } else {
            queue
        },
    )
}

/// The receiver, and what is still to come out of the queue, after some calls.
pub open spec fn after_calls(
    r: CandleReceiver,
    queue: Seq<ReceiverEvent>,
    calls: Seq<Call>,
) -> (CandleReceiver, Seq<ReceiverEvent>)
    decreases calls.len(),
{
    if calls.len() == 0 {
        (r, queue)
    } else {
        let (s, left) = after_call(r, queue, calls[0]);
        after_calls(s, left, calls.drop_first())
    }
}

/// What a receiver gives to the user over some calls. `queue` is all that the worker ever hands on,
/// whether or not it has arrived at a call.
pub open spec fn given_out(
    r: CandleReceiver,
    queue: Seq<ReceiverEvent>,
    calls: Seq<Call>,
) -> Seq<ReceiverEvent>
    decreases calls.len(),
{
    if calls.len() == 0 {
        Seq::empty()
    } else {
        let (s, left) = after_call(r, queue, calls[0]);
        let rest = given_out(s, left, calls.drop_first());
        match gives(r, queue, calls[0]) {
            Some(event) => seq![event] + rest,
            None => rest,
        }
    }
}

/// What waits for a user: the error that is kept, and then the queue.
pub open spec fn waiting(r: CandleReceiver, queue: Seq<ReceiverEvent>) -> Seq<ReceiverEvent> {
    match r.pending_error {
        Some(e) => seq![Err::<CanMessage, ReceiveError>(e)] + queue,
        None => queue,
    }
}

/// However receives and looks without waiting are mixed, and whether or not an event was there at
/// each, the user gets the events that the worker hands on in order: what was given out, followed
/// by what still waits, is what waited before, with none left out and none twice.
pub proof fn events_come_in_order(r: CandleReceiver, queue: Seq<ReceiverEvent>, calls: Seq<Call>)
    ensures
        ({
            let (s, left) = after_calls(r, queue, calls);
            given_out(r, queue, calls) + waiting(s, left) == waiting(r, queue)
        }),
    decreases calls.len(),
{
    let (s, left) = after_calls(r, queue, calls);
    let out = given_out(r, queue, calls);
    if calls.len() > 0 {
        let (s1, left1) = after_call(r, queue, calls[0]);
        let rest = given_out(s1, left1, calls.drop_first());
        events_come_in_order(s1, left1, calls.drop_first());
        if let Some(event) = gives(r, queue, calls[0]) {
            assert(waiting(r, queue) =~= seq![event] + waiting(s1, left1));
            assert(out + waiting(s, left) =~= seq![event] + (rest + waiting(s, left)));
        } else {
            assert(waiting(r, queue) =~= waiting(s1, left1));
        }
    }
    assert(out + waiting(s, left) =~= waiting(r, queue));
}

/// Where an event was there, or an error is kept, a receive gives the first event that waits. A
/// look gives it where it is a message that was there, and none is kept.
pub proof fn calls_give_what_waits(r: CandleReceiver, queue: Seq<ReceiverEvent>, call: Call)
    ensures
        ({
            let ready = r.pending_error is Some || call.there && queue.len() > 0;
            &&& call.waits && ready ==> gives(r, queue, call) == Some(waiting(r, queue)[0])
            &&& !call.waits && ready && waiting(r, queue)[0] is Ok ==> gives(r, queue, call)
                == Some(waiting(r, queue)[0])
            &&& !call.waits && ready && waiting(r, queue)[0] is Err ==> gives(r, queue, call)
                is None
            &&& !ready ==> gives(r, queue, call) is None
            &&& call.waits && !ready ==> r.took(None).1 == Err::<CanMessage, ReceiveError>(
                ReceiveError::ChannelClosed,
            )
        }),
{
}

/// What becomes of a message: the very answer of the worker where there is one; else the message
/// comes back, with the word that the worker is closed.
pub proof fn send_ends_with_the_answer(
    msg: CanMessage,
    queued: bool,
    reply: Option<Result<(), SendError>>,
    r: Result<(), SendError>,
)
    requires
        concluded(msg, queued, reply, r),
    ensures
        queued && reply is Some ==> Some(r) == reply,
        !queued || reply is None ==> {
            &&& r is Err
            &&& r->Err_0.message == msg
            &&& r->Err_0.details@ == "worker closed"@
        },
{
}

/// What a single call gives. A look gives the message that was found; an error that was found is
/// kept, and while one is kept a look gives nothing and leaves all as it is. A receive gives the
/// error that is kept, which is then kept no more; where none is kept it gives the event that came,
/// or tells that the worker is gone.
pub proof fn receiver_gives_what_it_gets(
    r: CandleReceiver,
    found: Option<ReceiverEvent>,
    msg: CanMessage,
    error: ReceiveError,
)
    ensures
        r.pending_error is None ==> {
            &&& r.looked(Some(Ok(msg))) == (r, Some(msg))
            &&& r.looked(Some(Err(error))).1 is None
            &&& r.looked(Some(Err(error))).0.pending_error == Some(error)
            &&& r.looked(None) == (r, None::<CanMessage>)
            &&& r.took(Some(Ok(msg))).1 == Ok::<CanMessage, ReceiveError>(msg)
            &&& r.took(Some(Err(error))).1 == Err::<CanMessage, ReceiveError>(error)
            &&& r.took(None).1 == Err::<CanMessage, ReceiveError>(ReceiveError::ChannelClosed)
        },
        r.pending_error matches Some(kept) ==> {
            &&& r.looked(found) == (r, None::<CanMessage>)
            &&& r.took(found).1 == Err::<CanMessage, ReceiveError>(kept)
        },
        r.took(found).0.pending_error is None,
{
}

} // verus!
