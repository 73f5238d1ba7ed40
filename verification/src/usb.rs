//! The calls that the adapter makes on the operating system, and how operations make them.

use crate::frame::CandleFrame;
use crate::wire::{sent_fields_stand_in_order, ControlData, SetupPacket};
use vstd::prelude::*;

verus! {

/// A call to make. Handles are plain numbers.
#[derive(Debug, Clone, Copy, PartialEq, Eq)]
pub enum Request {
    /// List the present interfaces of the class `guid`.
    GetClassDevs { guid: u128 },
    /// Go to the interface `member` of the list `devs`.
    EnumInterface { devs: isize, member: u32 },
    /// Ask for the number of bytes that the detail of that interface takes.
    DetailLength { devs: isize },
    /// Read the detail of that interface into a buffer of `length` bytes.
    Detail { devs: isize, length: u32 },
    /// Release the list `devs`.
    DestroyClassDevs { devs: isize },
    /// Open the file of a device for overlapped reading and writing.
    CreateFile { path: [u16; 256] },
    /// Open the USB interface of an open file.
    Initialize { file: isize },
    /// Read the descriptor of an interface.
    QueryInterface { usb: isize },
    /// Read what is known of the pipe `index` of an interface.
    QueryPipe { usb: isize, index: u8 },
    /// Set a policy of a pipe.
    SetPipePolicy { usb: isize, pipe: u8, policy: u32, value: u8 },
    /// Make a control transfer, with the bytes of `data` in the buffer.
    Control { usb: isize, packet: SetupPacket, data: ControlData },
    /// Release an interface.
    FreeInterface { usb: isize },
    /// Close a file or an event.
    CloseHandle { handle: isize },
    /// Create an event that is reset by hand.
    CreateEvent,
    /// Start to read from a pipe into the buffer `urb`; `event` is set at the end.
    ReadPipe { usb: isize, pipe: u8, urb: usize, event: isize },
    /// Write the bytes of a frame to a pipe.
    WritePipe { usb: isize, pipe: u8, frame: CandleFrame },
    /// Wait until one of the events is set, or for `timeout_ms`.
    WaitEvents { events: [isize; 30], timeout_ms: u32 },
    /// Ask how the read into the buffer `urb` ended.
    OverlappedResult { usb: isize, urb: usize },
}

/// The descriptor of an interface.
#[derive(Debug, Clone, Copy, PartialEq, Eq, Structural)]
pub struct InterfaceInfo {
    pub number: u8,
    pub endpoints: u8,
}

/// What is known of a pipe.
#[derive(Debug, Clone, Copy, PartialEq, Eq, Structural)]
pub struct PipeInfo {
    pub kind: i32,
    pub id: u8,
}

/// What a call came to. `last_error` is the error code of the thread right after the call.
#[derive(Debug)]
pub enum Reply {
    /// It was made; its result is of no interest.
    Done,
    /// Whether it succeeded.
    Status { ok: bool, last_error: Option<u32> },
    /// The handle that it opened.
    Handle(Option<isize>),
    /// The descriptor that it read.
    Interface(Option<InterfaceInfo>),
    /// What it found of the pipe.
    Pipe(Option<PipeInfo>),
    /// Whether the transfer succeeded, and what the buffer holds after it.
    Transfer { ok: bool, data: Vec<u8> },
    /// The length that it found.
    Length { length: u32, last_error: Option<u32> },
    /// The path in the detail that it read.
    Path(Option<Vec<u16>>),
    /// Which event ended the wait, or why it ended.
    Wait(u32),
    /// The number of bytes that were read, and what the buffer holds.
    Overlapped { transferred: Option<u32>, buffer: Vec<u8> },
}

/// The number of bytes of a buffer to read into.
pub const URB_BUFFER_SIZE: usize = 128;

impl Reply {
    /// The reply is one that the request can get.
    pub open spec fn answers(self, request: Request) -> bool {
        match request {
            Request::GetClassDevs { .. } => self is Handle,
            Request::EnumInterface { .. } => self is Status,
            Request::DetailLength { .. } => self is Length,
            Request::Detail { .. } => self is Path,
            Request::DestroyClassDevs { .. } => self is Done,
            Request::CreateFile { .. } => self is Handle,
            Request::Initialize { .. } => self is Handle,
            Request::QueryInterface { .. } => self is Interface,
            Request::QueryPipe { .. } => self is Pipe,
            Request::SetPipePolicy { .. } => self is Status,
            Request::Control { data, .. } => {
                self is Transfer && self->Transfer_data@.len() == data.size()
            },
            Request::FreeInterface { .. } => self is Done,
            Request::CloseHandle { .. } => self is Done,
            Request::CreateEvent => self is Handle,
            Request::ReadPipe { .. } => self is Status,
            Request::WritePipe { .. } => self is Status,
            Request::WaitEvents { .. } => self is Wait,
            Request::OverlappedResult { .. } => {
                self is Overlapped && self->Overlapped_buffer@.len() == URB_BUFFER_SIZE
            },
        }
    }

    /// Whether the reply is one that the request can get.
    pub fn fits(&self, request: &Request) -> (b: bool)
        ensures
            b == self.answers(*request),
    {
        match (request, self) {
            (Request::GetClassDevs { .. }, Reply::Handle(_)) => true,
            (Request::EnumInterface { .. }, Reply::Status { .. }) => true,
            (Request::DetailLength { .. }, Reply::Length { .. }) => true,
            (Request::Detail { .. }, Reply::Path(_)) => true,
            (Request::DestroyClassDevs { .. }, Reply::Done) => true,
            (Request::CreateFile { .. }, Reply::Handle(_)) => true,
            (Request::Initialize { .. }, Reply::Handle(_)) => true,
            (Request::QueryInterface { .. }, Reply::Interface(_)) => true,
            (Request::QueryPipe { .. }, Reply::Pipe(_)) => true,
            (Request::SetPipePolicy { .. }, Reply::Status { .. }) => true,
            (Request::Control { data, .. }, Reply::Transfer { data: buffer, .. }) => {
                buffer.len() == data.len() as usize
            },
            (Request::FreeInterface { .. }, Reply::Done) => true,
            (Request::CloseHandle { .. }, Reply::Done) => true,
            (Request::CreateEvent, Reply::Handle(_)) => true,
            (Request::ReadPipe { .. }, Reply::Status { .. }) => true,
            (Request::WritePipe { .. }, Reply::Status { .. }) => true,
            (Request::WaitEvents { .. }, Reply::Wait(_)) => true,
            (Request::OverlappedResult { .. }, Reply::Overlapped { buffer, .. }) => {
                buffer.len() == URB_BUFFER_SIZE
            },
            _ => false,
        }
    }
}

/// The error code of the thread, out of the result of the call that asks for it: the result code,
/// its bits read as an unsigned number, or `None` where there was no error.
///
/// The result code is an `HRESULT`, and all its bits are kept. That of the system error `n`, for
/// `n` from 1 to 0xFFFF, is `0x8007_0000 + n`, so a comparison of what is returned with `n` itself
/// never succeeds.
pub fn get_last_err_code(result: Option<i32>) -> (code: Option<u32>)
    ensures
        match result {
            Some(r) => code is Some && code.unwrap() == if r >= 0 {
                r as int
            } else {
                r + 0x1_0000_0000
            },
            None => code is None,
        },
{
    match result {
        Some(r) => {
            assert(r as u32 == if r >= 0 {
                r as int
            } else {
                r + 0x1_0000_0000
            }) by (bit_vector);
            Some(r as u32)
        },
        None => None,
    }
}

/// An operation that takes several calls. Its value is where it stands; what it works on is the
/// state.
pub trait Operation: Sized + Copy {
    /// What the operation works on.
    type State;

    /// Where the operation stands is a place that it can reach.
    spec fn wf(self) -> bool;

    /// The call to make next, or `None` at the end.
    spec fn pending(self, state: Self::State) -> Option<Request>;

    /// The state, and where the operation stands, once the call has been answered.
    spec fn next(self, state: Self::State, reply: Reply) -> (Self::State, Self);

    /// What the operation came to, or `None` before the end.
    spec fn result(self) -> Option<bool>;

    /// The most calls that the operation can still make.
    spec fn calls_left(self) -> nat;

    /// The operation names a call to make until it has a result.
    proof fn calls_until_the_end(self, state: Self::State)
        requires
            self.wf(),
        ensures
            self.pending(state) is None <==> self.result() is Some,
    ;

    /// An answer takes the operation to a place that it can reach, and nearer to its end.
    proof fn advances(self, state: Self::State, reply: Reply)
        requires
            self.wf(),
            self.pending(state) is Some,
            reply.answers(self.pending(state).unwrap()),
        ensures
            self.next(state, reply).1.wf(),
            self.next(state, reply).1.calls_left() < self.calls_left(),
    ;

    /// The call to make next, or `None` at the end.
    fn request(self, state: &Self::State) -> (request: Option<Request>)
        requires
            self.wf(),
        ensures
            request == self.pending(*state),
            request is None <==> self.result() is Some,
    ;

    /// Takes in the answer to the call.
    fn step(self, state: &mut Self::State, reply: &Reply) -> (op: Self)
        requires
            self.wf(),
            self.pending(*old(state)) is Some,
            reply.answers(self.pending(*old(state)).unwrap()),
        ensures
            op.wf(),
            (*final(state), op) == self.next(*old(state), *reply),
    ;

    /// What the operation came to, or `None` before the end.
    fn outcome(self) -> (ok: Option<bool>)
        ensures
            ok == self.result(),
    ;
}

/// The replies answer, one after the other, the calls of the operation.
pub open spec fn answered<O: Operation>(op: O, state: O::State, replies: Seq<Reply>) -> bool
    decreases replies.len(),
{
    replies.len() == 0 || {
        &&& op.pending(state) is Some
        &&& replies[0].answers(op.pending(state).unwrap())
        &&& answered(
            op.next(state, replies[0]).1,
            op.next(state, replies[0]).0,
            replies.drop_first(),
        )
    }
}

/// The state, and where the operation stands, once it has got the replies.
pub open spec fn after<O: Operation>(op: O, state: O::State, replies: Seq<Reply>) -> (O::State, O)
    decreases replies.len(),
{
    if replies.len() == 0 {
        (state, op)
    } else {
        after(op.next(state, replies[0]).1, op.next(state, replies[0]).0, replies.drop_first())
    }
}

/// The calls that the replies answer.
pub open spec fn calls<O: Operation>(op: O, state: O::State, replies: Seq<Reply>) -> Seq<Request>
    decreases replies.len(),
{
    if replies.len() == 0 {
        Seq::empty()
    } else {
        seq![op.pending(state).unwrap()] + calls(
            op.next(state, replies[0]).1,
            op.next(state, replies[0]).0,
            replies.drop_first(),
        )
    }
}

/// The replies take the operation to its end, with that result.
pub open spec fn completes<O: Operation>(
    op: O,
    state: O::State,
    replies: Seq<Reply>,
    ok: bool,
) -> bool {
    &&& answered(op, state, replies)
    &&& after(op, state, replies).1.result() == Some(ok)
}

/// An operation that completes has either ended or completes from where its first reply takes it.
pub proof fn completes_by_steps<O: Operation>(
    op: O,
    state: O::State,
    replies: Seq<Reply>,
    ok: bool,
)
    requires
        completes(op, state, replies, ok),
    ensures
        replies.len() == 0 ==> {
            &&& op.result() == Some(ok)
            &&& after(op, state, replies) == (state, op)
            &&& calls(op, state, replies) == Seq::<Request>::empty()
        },
        replies.len() > 0 ==> {
            let (s, o) = op.next(state, replies[0]);
            let rest = replies.drop_first();
            &&& op.pending(state) is Some
            &&& replies[0].answers(op.pending(state).unwrap())
            &&& completes(o, s, rest, ok)
            &&& after(op, state, replies) == after(o, s, rest)
            &&& calls(op, state, replies) == seq![op.pending(state).unwrap()] + calls(o, s, rest)
        },
{
}

/// An operation ends: it makes no more calls than it has left, and where it makes no more it has a
/// result.
pub proof fn operations_end<O: Operation>(op: O, state: O::State, replies: Seq<Reply>)
    requires
        op.wf(),
        answered(op, state, replies),
    ensures
        ({
            let (s, o) = after(op, state, replies);
            &&& o.wf()
            &&& replies.len() + o.calls_left() <= op.calls_left()
            &&& o.pending(s) is None <==> o.result() is Some
        }),
    decreases replies.len(),
{
    if replies.len() == 0 {
        op.calls_until_the_end(state);
    } else {
        op.advances(state, replies[0]);
        let (s, o) = op.next(state, replies[0]);
        operations_end(o, s, replies.drop_first());
    }
}

/// A run is the run over its first replies and then, from where those lead, over the others.
pub proof fn runs_split<O: Operation>(op: O, state: O::State, replies: Seq<Reply>, k: int)
    requires
        0 <= k <= replies.len(),
        answered(op, state, replies),
    ensures
        ({
            let (s, o) = after(op, state, replies.take(k));
            &&& answered(op, state, replies.take(k))
            &&& answered(o, s, replies.skip(k))
            &&& after(op, state, replies) == after(o, s, replies.skip(k))
            &&& calls(op, state, replies) == calls(op, state, replies.take(k)) + calls(
                o,
                s,
                replies.skip(k),
            )
        }),
    decreases k,
{
    let head = replies.take(k);
    let rest = replies.skip(k);
    if k == 0 {
        assert(rest =~= replies);
        assert(calls(op, state, replies) =~= calls(op, state, head) + calls(op, state, rest));
    } else {
        let (s, o) = op.next(state, replies[0]);
        runs_split(o, s, replies.drop_first(), k - 1);
        assert(head.drop_first() =~= replies.drop_first().take(k - 1));
        assert(rest =~= replies.drop_first().skip(k - 1));
        let (s2, o2) = after(op, state, head);
        assert(calls(op, state, replies) =~= calls(op, state, head) + calls(o2, s2, rest));
    }
}

/// An operation ends at one place only: of some replies, there is one number of first replies that
/// take it to its end, and one result.
pub proof fn runs_end_once<O: Operation>(
    op: O,
    state: O::State,
    replies: Seq<Reply>,
    a: int,
    p: bool,
    b: int,
    q: bool,
)
    requires
        op.wf(),
        0 <= a <= replies.len(),
        0 <= b <= replies.len(),
        completes(op, state, replies.take(a), p),
        completes(op, state, replies.take(b), q),
    ensures
        a == b,
        p == q,
    decreases replies.len(),
{
    op.calls_until_the_end(state);
    completes_by_steps(op, state, replies.take(a), p);
    completes_by_steps(op, state, replies.take(b), q);
    if a > 0 && b > 0 {
        let (s, o) = op.next(state, replies[0]);
        let rest = replies.drop_first();
        op.advances(state, replies[0]);
        assert(replies.take(a).drop_first() =~= rest.take(a - 1));
        assert(replies.take(b).drop_first() =~= rest.take(b - 1));
        runs_end_once(o, s, rest, a - 1, p, b - 1, q);
    }
}

/// Each reply answers one call.
pub proof fn calls_match_replies<O: Operation>(op: O, state: O::State, replies: Seq<Reply>)
    ensures
        calls(op, state, replies).len() == replies.len(),
    decreases replies.len(),
{
    if replies.len() > 0 {
        let (s, o) = op.next(state, replies[0]);
        calls_match_replies(o, s, replies.drop_first());
    }
}

/// Each reply is one that the call at its place can get.
pub proof fn runs_answer_calls<O: Operation>(op: O, state: O::State, replies: Seq<Reply>, i: int)
    requires
        answered(op, state, replies),
        0 <= i < replies.len(),
    ensures
        calls(op, state, replies).len() == replies.len(),
        replies[i].answers(calls(op, state, replies)[i]),
    decreases replies.len(),
{
    calls_match_replies(op, state, replies);
    if i > 0 {
        let (s, o) = op.next(state, replies[0]);
        runs_answer_calls(o, s, replies.drop_first(), i - 1);
        assert(calls(op, state, replies)[i] == calls(o, s, replies.drop_first())[i - 1]);
    }
}

/// By how much a call that was answered changes the number of open files, where no event is
/// created or closed.
pub open spec fn file_change(request: Request, reply: Reply) -> int {
    if request is CreateFile && reply->Handle_0 is Some {
        1
    } else if request is CloseHandle {
        -1
    } else {
        0
    }
}

/// By how much a call that was answered changes the number of open interfaces.
pub open spec fn interface_change(request: Request, reply: Reply) -> int {
    if request is Initialize && reply->Handle_0 is Some {
        1
    } else if request is FreeInterface {
        -1
    } else {
        0
    }
}

/// How many files more are open after the replies than before.
pub open spec fn files_left<O: Operation>(op: O, state: O::State, replies: Seq<Reply>) -> int
    decreases replies.len(),
{
    if replies.len() == 0 {
        0
    } else {
        file_change(op.pending(state).unwrap(), replies[0]) + files_left(
            op.next(state, replies[0]).1,
            op.next(state, replies[0]).0,
            replies.drop_first(),
        )
    }
}

/// How many interfaces more are open after the replies than before.
pub open spec fn interfaces_left<O: Operation>(op: O, state: O::State, replies: Seq<Reply>) -> int
    decreases replies.len(),
{
    if replies.len() == 0 {
        0
    } else {
        interface_change(op.pending(state).unwrap(), replies[0]) + interfaces_left(
            op.next(state, replies[0]).1,
            op.next(state, replies[0]).0,
            replies.drop_first(),
        )
    }
}

/// The number of bytes of a buffer to read into.
pub proof fn buffers_have_their_size()
    ensures
        URB_BUFFER_SIZE == 128,
{
}

/// Which replies a call can get: a handle for what lists or opens something; whether it succeeded,
/// for what sets or starts something; and of a transfer as many bytes as were in its buffer, and of
/// a read the whole buffer.
pub proof fn calls_get_their_kind_of_reply(request: Request, reply: Reply)
    ensures
        request is GetClassDevs || request is CreateFile || request is Initialize
            || request is CreateEvent ==> (reply.answers(request) <==> reply is Handle),
        request is EnumInterface || request is SetPipePolicy || request is ReadPipe
            || request is WritePipe ==> (reply.answers(request) <==> reply is Status),
        request is DestroyClassDevs || request is FreeInterface || request is CloseHandle ==> (
        reply.answers(request) <==> reply is Done),
        request is DetailLength ==> (reply.answers(request) <==> reply is Length),
        request is Detail ==> (reply.answers(request) <==> reply is Path),
        request is QueryInterface ==> (reply.answers(request) <==> reply is Interface),
        request is QueryPipe ==> (reply.answers(request) <==> reply is Pipe),
        request is WaitEvents ==> (reply.answers(request) <==> reply is Wait),
        request is Control ==> (reply.answers(request) <==> reply is Transfer
            && reply->Transfer_data@.len() == request->Control_data.bytes().len()),
        request is OverlappedResult ==> (reply.answers(request) <==> reply is Overlapped
            && reply->Overlapped_buffer@.len() == 128),
{
    if let Request::Control { data, .. } = request {
        sent_fields_stand_in_order(data);
    }
}

/// A run is made of steps: without replies nothing has happened; with some, the first answers the
/// call that is pending, and the others follow from where it leads.
pub proof fn runs_are_made_of_steps<O: Operation>(
    op: O,
    state: O::State,
    replies: Seq<Reply>,
    ok: bool,
)
    ensures
        replies.len() == 0 ==> {
            &&& completes(op, state, replies, ok) <==> op.result() == Some(ok)
            &&& answered(op, state, replies)
            &&& after(op, state, replies) == (state, op)
            &&& calls(op, state, replies).len() == 0
        },
        replies.len() > 0 ==> {
            let (s, o) = op.next(state, replies[0]);
            let rest = replies.drop_first();
            let fits = op.pending(state) is Some && replies[0].answers(
                op.pending(state).unwrap(),
            );
            &&& completes(op, state, replies, ok) <==> fits && completes(o, s, rest, ok)
            &&& answered(op, state, replies) <==> fits && answered(o, s, rest)
            &&& after(op, state, replies) == after(o, s, rest)
            &&& calls(op, state, replies).len() == calls(o, s, rest).len() + 1
            &&& calls(op, state, replies)[0] == op.pending(state).unwrap()
            &&& calls(op, state, replies).drop_first() == calls(o, s, rest)
        },
{
    if replies.len() > 0 {
        let (s, o) = op.next(state, replies[0]);
        assert(calls(op, state, replies).drop_first() =~= calls(o, s, replies.drop_first()));
    }
}

} // verus!
