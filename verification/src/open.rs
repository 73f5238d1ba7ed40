//! Opening the interface of a device.

use crate::control::{
    candle_ctrl_get_capability, candle_ctrl_get_config, candle_ctrl_set_host_format,
    capability_msg, config_msg, host_format_msg, Control,
};
use crate::device::CandleDevice;
use crate::error::CandleErr;
use crate::usb::{
    after, answered, calls, calls_match_replies, completes, completes_by_steps, runs_answer_calls,
    runs_split, Operation, Reply, Request,
};
use crate::wire::{
    read_fields_come_in_order, stands_at, CandleCapability, CandleDeviceConfig, CandleHostConfig,
    ControlData, SetupPacket,
};
use vstd::prelude::*;

verus! {

/// The kind of a bulk pipe.
pub const PIPE_BULK: i32 = 2;

/// The pipe policy that hands reads through to the device.
pub const POLICY_RAW_IO: u32 = 7;

/// The opening of the interface of a device.
#[derive(Debug, Clone, Copy)]
pub enum InternalOpen {
    CreateFile,
    Initialize,
    QueryInterface,
    QueryPipe { index: u8, endpoints: u8, found: u8 },
    RawIo,
    HostFormat,
    Config,
    Capability,
    /// It failed; the interface and then the file are to be released.
    FreeInterface,
    /// It failed; the file is to be closed.
    CloseFile,
    Finished { ok: bool },
}

/// The opening failed with an interface open.
pub open spec fn open_fails(dev: CandleDevice, error: CandleErr) -> (CandleDevice, InternalOpen) {
    (CandleDevice { last_error: error, ..dev }, InternalOpen::FreeInterface)
}

/// Goes on to the pipe `index`, or past the pipes, of which exactly two are wanted.
pub open spec fn pipes_from(dev: CandleDevice, index: int, endpoints: u8, found: int) -> (
    CandleDevice,
    InternalOpen,
) {
    if index < endpoints {
        (dev, InternalOpen::QueryPipe { index: index as u8, endpoints, found: found as u8 })
    } else if found == 2 {
        (dev, InternalOpen::RawIo)
    } else {
        open_fails(dev, CandleErr::ParseIfDescr)
    }
}

/// The device once a bulk pipe has been found: it reads from the last pipe that goes in, and
/// writes to the last one that goes out.
pub open spec fn with_pipe(dev: CandleDevice, id: u8) -> CandleDevice {
    if id & 0x80 != 0 {
        CandleDevice { bulk_in_pipe: id, ..dev }
    } else {
        CandleDevice { bulk_out_pipe: id, ..dev }
    }
}

/// The device with what a transfer left in its buffer.
pub open spec fn with_data(dev: CandleDevice, op: Control) -> CandleDevice {
    match op {
        Control::Finished { data: ControlData::Config(c), .. } => CandleDevice { dconf: c, ..dev },
        Control::Finished { data: ControlData::Capability(c), .. } => CandleDevice {
            bt_const: c,
            ..dev
        },
        _ => dev,
    }
}

impl Operation for InternalOpen {
    type State = CandleDevice;

    open spec fn wf(self) -> bool {
        match self {
            InternalOpen::QueryPipe { index, endpoints, found } => {
                index < endpoints && found == index
            },
            _ => true,
        }
    }

    open spec fn pending(self, dev: CandleDevice) -> Option<Request> {
        match self {
            InternalOpen::CreateFile => Some(Request::CreateFile { path: dev.path }),
            InternalOpen::Initialize => Some(Request::Initialize { file: dev.device_handle }),
            InternalOpen::QueryInterface => Some(
                Request::QueryInterface { usb: dev.winusb_handle },
            ),
            InternalOpen::QueryPipe { index, .. } => Some(
                Request::QueryPipe { usb: dev.winusb_handle, index },
            ),
            InternalOpen::RawIo => Some(
                Request::SetPipePolicy {
                    usb: dev.winusb_handle,
                    pipe: dev.bulk_in_pipe,
                    policy: POLICY_RAW_IO,
                    value: 1,
                },
            ),
            InternalOpen::HostFormat => host_format_msg(dev).pending(dev),
            InternalOpen::Config => config_msg(dev, dev.dconf).pending(dev),
            InternalOpen::Capability => capability_msg(dev, 0, dev.bt_const).pending(dev),
            InternalOpen::FreeInterface => Some(Request::FreeInterface { usb: dev.winusb_handle }),
            InternalOpen::CloseFile => Some(Request::CloseHandle { handle: dev.device_handle }),
            InternalOpen::Finished { .. } => None,
        }
    }

    open spec fn next(self, dev: CandleDevice, reply: Reply) -> (CandleDevice, Self) {
        match (self, reply) {
            (InternalOpen::CreateFile, Reply::Handle(None)) => (
                CandleDevice { last_error: CandleErr::CreateFile, ..dev },
                InternalOpen::Finished { ok: false },
            ),
            (InternalOpen::CreateFile, Reply::Handle(Some(file))) => (
                CandleDevice { device_handle: file, ..dev },
                InternalOpen::Initialize,
            ),
            (InternalOpen::Initialize, Reply::Handle(None)) => (
                CandleDevice { last_error: CandleErr::WinUsbInitialize, ..dev },
                InternalOpen::CloseFile,
            ),
            (InternalOpen::Initialize, Reply::Handle(Some(usb))) => (
                CandleDevice { winusb_handle: usb, ..dev },
                InternalOpen::QueryInterface,
            ),
            (InternalOpen::QueryInterface, Reply::Interface(None)) => open_fails(
                dev,
                CandleErr::QueryInterface,
            ),
            (InternalOpen::QueryInterface, Reply::Interface(Some(i))) => pipes_from(
                CandleDevice { interface_number: i.number, ..dev },
                0,
                i.endpoints,
                0,
            ),
            (InternalOpen::QueryPipe { .. }, Reply::Pipe(None)) => open_fails(
                dev,
                CandleErr::QueryPipe,
            ),
            (InternalOpen::QueryPipe { index, endpoints, found }, Reply::Pipe(Some(p))) => {
                if p.kind == PIPE_BULK {
                    pipes_from(with_pipe(dev, p.id), index + 1, endpoints, found + 1)
                } else {
                    open_fails(dev, CandleErr::ParseIfDescr)
                }
            },
            (InternalOpen::RawIo, Reply::Status { ok, .. }) => {
                if ok {
                    (dev, InternalOpen::HostFormat)
                } else {
                    open_fails(dev, CandleErr::SetPipeRawIo)
                }
            },
            (InternalOpen::HostFormat, Reply::Transfer { ok, .. }) => {
                let (d, _op) = host_format_msg(dev).next(dev, reply);
                if ok {
                    (d, InternalOpen::Config)
                } else {
                    (d, InternalOpen::FreeInterface)
                }
            },
            (InternalOpen::Config, Reply::Transfer { ok, .. }) => {
                let (d, op) = config_msg(dev, dev.dconf).next(dev, reply);
                if ok {
                    (with_data(d, op), InternalOpen::Capability)
                } else {
                    (with_data(d, op), InternalOpen::FreeInterface)
                }
            },
            (InternalOpen::Capability, Reply::Transfer { ok, .. }) => {
                let (d, op) = capability_msg(dev, 0, dev.bt_const).next(dev, reply);
                if ok {
                    (with_data(d, op), InternalOpen::Finished { ok: true })
                } else {
                    (with_data(d, op), InternalOpen::FreeInterface)
                }
            },
            (InternalOpen::FreeInterface, Reply::Done) => (dev, InternalOpen::CloseFile),
            (InternalOpen::CloseFile, Reply::Done) => (dev, InternalOpen::Finished { ok: false }),
            _ => (dev, self),
        }
    }

    open spec fn result(self) -> Option<bool> {
        match self {
            InternalOpen::Finished { ok } => Some(ok),
            _ => None,
        }
    }

    open spec fn calls_left(self) -> nat {
        match self {
            InternalOpen::CreateFile => 264,
            InternalOpen::Initialize => 263,
            InternalOpen::QueryInterface => 262,
            InternalOpen::QueryPipe { index, endpoints, .. } => (6 + (endpoints - index)) as nat,
            InternalOpen::RawIo => 6,
            InternalOpen::HostFormat => 5,
            InternalOpen::Config => 4,
            InternalOpen::Capability => 3,
            InternalOpen::FreeInterface => 2,
            InternalOpen::CloseFile => 1,
            InternalOpen::Finished { .. } => 0,
        }
    }

    proof fn calls_until_the_end(self, dev: CandleDevice) {
    }

    proof fn advances(self, dev: CandleDevice, reply: Reply) {
    }

    fn request(self, dev: &CandleDevice) -> (request: Option<Request>) {
        match self {
            InternalOpen::CreateFile => Some(Request::CreateFile { path: dev.path }),
            InternalOpen::Initialize => Some(Request::Initialize { file: dev.device_handle }),
            InternalOpen::QueryInterface => Some(
                Request::QueryInterface { usb: dev.winusb_handle },
            ),
            InternalOpen::QueryPipe { index, .. } => Some(
                Request::QueryPipe { usb: dev.winusb_handle, index },
            ),
            InternalOpen::RawIo => Some(
                Request::SetPipePolicy {
                    usb: dev.winusb_handle,
                    pipe: dev.bulk_in_pipe,
                    policy: POLICY_RAW_IO,
                    value: 1,
                },
            ),
            InternalOpen::HostFormat => candle_ctrl_set_host_format(dev).request(dev),
            InternalOpen::Config => candle_ctrl_get_config(dev, &dev.dconf).request(dev),
            InternalOpen::Capability => {
                candle_ctrl_get_capability(dev, 0, &dev.bt_const).request(dev)
            },
            InternalOpen::FreeInterface => Some(Request::FreeInterface { usb: dev.winusb_handle }),
            InternalOpen::CloseFile => Some(Request::CloseHandle { handle: dev.device_handle }),
            InternalOpen::Finished { .. } => None,
        }
    }

    fn step(self, dev: &mut CandleDevice, reply: &Reply) -> (op: Self) {
        match (self, reply) {
            (InternalOpen::CreateFile, Reply::Handle(handle)) => match handle {
                Some(file) => {
                    dev.device_handle = *file;
                    InternalOpen::Initialize
                },
                None => {
                    dev.last_error = CandleErr::CreateFile;
                    InternalOpen::Finished { ok: false }
                },
            },
            (InternalOpen::Initialize, Reply::Handle(handle)) => match handle {
                Some(usb) => {
                    dev.winusb_handle = *usb;
                    InternalOpen::QueryInterface
                },
                None => {
                    dev.last_error = CandleErr::WinUsbInitialize;
                    InternalOpen::CloseFile
                },
            },
            (InternalOpen::QueryInterface, Reply::Interface(interface)) => match interface {
                Some(i) => {
                    dev.interface_number = i.number;
                    go_to_pipe(dev, 0, i.endpoints, 0)
                },
                None => {
                    dev.last_error = CandleErr::QueryInterface;
                    InternalOpen::FreeInterface
                },
            },
            (InternalOpen::QueryPipe { index, endpoints, found }, Reply::Pipe(pipe)) => match pipe {
                Some(p) => {
                    let is_bulk = p.kind == PIPE_BULK;
                    let is_in = (p.id & 0x80) != 0;
                    if is_bulk && is_in {
                        dev.bulk_in_pipe = p.id;
                        go_to_pipe(dev, index + 1, endpoints, found + 1)
                    } else if is_bulk {
                        dev.bulk_out_pipe = p.id;
                        go_to_pipe(dev, index + 1, endpoints, found + 1)
                    } else {
                        dev.last_error = CandleErr::ParseIfDescr;
                        InternalOpen::FreeInterface
                    }
                },
                None => {
                    dev.last_error = CandleErr::QueryPipe;
                    InternalOpen::FreeInterface
                },
            },
            (InternalOpen::RawIo, Reply::Status { ok, .. }) => {
                if *ok {
                    InternalOpen::HostFormat
                } else {
                    dev.last_error = CandleErr::SetPipeRawIo;
                    InternalOpen::FreeInterface
                }
            },
            (InternalOpen::HostFormat, Reply::Transfer { ok, .. }) => {
                let msg = candle_ctrl_set_host_format(dev);
                let _ = msg.step(dev, reply);
                if *ok {
                    InternalOpen::Config
                } else {
                    InternalOpen::FreeInterface
                }
            },
            (InternalOpen::Config, Reply::Transfer { ok, .. }) => {
                let msg = candle_ctrl_get_config(dev, &dev.dconf);
                if let Control::Finished { data: ControlData::Config(c), .. } = msg.step(dev, reply) {
                    dev.dconf = c;
                }
                if *ok {
                    InternalOpen::Capability
                } else {
                    InternalOpen::FreeInterface
                }
            },
            (InternalOpen::Capability, Reply::Transfer { ok, .. }) => {
                let msg = candle_ctrl_get_capability(dev, 0, &dev.bt_const);
                if let Control::Finished { data: ControlData::Capability(c), .. } = msg.step(
                    dev,
                    reply,
                ) {
                    dev.bt_const = c;
                }
                if *ok {
                    InternalOpen::Finished { ok: true }
                } else {
                    InternalOpen::FreeInterface
                }
            },
            (InternalOpen::FreeInterface, Reply::Done) => InternalOpen::CloseFile,
            (InternalOpen::CloseFile, Reply::Done) => InternalOpen::Finished { ok: false },
            _ => self,
        }
    }

    fn outcome(self) -> (ok: Option<bool>) {
        match self {
            InternalOpen::Finished { ok } => Some(ok),
            _ => None,
        }
    }
}

fn go_to_pipe(dev: &mut CandleDevice, index: u8, endpoints: u8, found: u8) -> (op: InternalOpen)
    requires
        found == index,
    ensures
        (*final(dev), op) == pipes_from(*old(dev), index as int, endpoints, found as int),
        op.wf(),
{
    if index < endpoints {
        InternalOpen::QueryPipe { index, endpoints, found }
    } else if found == 2 {
        InternalOpen::RawIo
    } else {
        dev.last_error = CandleErr::ParseIfDescr;
        InternalOpen::FreeInterface
    }
}

/// Starts to open the interface of a device.
pub fn candle_dev_internal_open() -> (op: InternalOpen)
    ensures
        op == InternalOpen::CreateFile,
        op.wf(),
{
    InternalOpen::CreateFile
}

/// The call releases what an earlier call opened.
pub open spec fn releases(request: Request) -> bool {
    request is FreeInterface || request is CloseHandle
}

/// The answers with which a device opens: a file, an interface with exactly two pipes, both of
/// them bulk pipes, and success of the four transfers and settings that follow.
pub open spec fn opens(replies: Seq<Reply>) -> bool {
    &&& replies.len() == 9
    &&& replies[0]->Handle_0 is Some
    &&& replies[1]->Handle_0 is Some
    &&& replies[2]->Interface_0 is Some
    &&& replies[2]->Interface_0.unwrap().endpoints == 2
    &&& replies[3]->Pipe_0 is Some
    &&& replies[3]->Pipe_0.unwrap().kind == PIPE_BULK
    &&& replies[4]->Pipe_0 is Some
    &&& replies[4]->Pipe_0.unwrap().kind == PIPE_BULK
    &&& replies[5]->Status_ok
    &&& replies[6]->Transfer_ok
    &&& replies[7]->Transfer_ok
    &&& replies[8]->Transfer_ok
}

/// The device that those answers leave.
pub open spec fn opened(dev: CandleDevice, replies: Seq<Reply>) -> CandleDevice {
    let piped = with_pipe(
        with_pipe(dev, replies[3]->Pipe_0.unwrap().id),
        replies[4]->Pipe_0.unwrap().id,
    );
    CandleDevice {
        last_error: CandleErr::Success,
        device_handle: replies[0]->Handle_0.unwrap(),
        winusb_handle: replies[1]->Handle_0.unwrap(),
        interface_number: replies[2]->Interface_0.unwrap().number,
        dconf: CandleDeviceConfig::of_bytes(replies[7]->Transfer_data@),
        bt_const: CandleCapability::of_bytes(replies[8]->Transfer_data@),
        ..piped
    }
}

/// The file and the interface are open.
pub open spec fn holds_interface(op: InternalOpen) -> bool {
    !(op is CreateFile || op is Initialize || op is CloseFile || op is Finished)
}

/// From where both are open: a failure releases the interface and then the file, each once and
/// at the very end, and leaves an error; success releases nothing.
proof fn open_tail(op: InternalOpen, dev: CandleDevice, replies: Seq<Reply>, ok: bool)
    requires
        op.wf(),
        holds_interface(op),
        op is FreeInterface ==> dev.last_error != CandleErr::Success,
        completes(op, dev, replies, ok),
    ensures
        ({
            let made = calls(op, dev, replies);
            let end = after(op, dev, replies).0;
            let n = made.len() as int;
            &&& n == replies.len()
            &&& end.device_handle == dev.device_handle
            &&& end.winusb_handle == dev.winusb_handle
            &&& ok ==> forall|i: int| 0 <= i < n ==> !releases(#[trigger] made[i])
            &&& ok ==> end.last_error == CandleErr::Success
            &&& !ok ==> {
                &&& n >= 2
                &&& made[n - 2] == (Request::FreeInterface { usb: dev.winusb_handle })
                &&& made[n - 1] == (Request::CloseHandle { handle: dev.device_handle })
                &&& forall|i: int| 0 <= i < n - 2 ==> !releases(#[trigger] made[i])
                &&& end.last_error != CandleErr::Success
            }
        }),
    decreases replies.len(),
{
    completes_by_steps(op, dev, replies, ok);
    let (d, o) = op.next(dev, replies[0]);
    let rest = replies.drop_first();
    let made = calls(op, dev, replies);
    if op is FreeInterface {
        completes_by_steps(o, d, rest, ok);
        let (d2, o2) = o.next(d, rest[0]);
        completes_by_steps(o2, d2, rest.drop_first(), ok);
    } else if o is Finished {
        completes_by_steps(o, d, rest, ok);
    } else {
        open_tail(o, d, rest, ok);
        let tail = calls(o, d, rest);
        assert(forall|i: int| 0 <= i < tail.len() ==> made[i + 1] == #[trigger] tail[i]);
        assert forall|i: int| 0 < i < made.len() implies made[i] == tail[i - 1] by {}
    }
}

/// An opening that fails leaves nothing open: the interface, if it was opened, and then the
/// file, if it was opened, are released at the end, each once, and nothing else is. The device
/// then has an error.
pub proof fn failed_open_releases_all(dev: CandleDevice, replies: Seq<Reply>)
    requires
        completes(InternalOpen::CreateFile, dev, replies, false),
    ensures
        ({
            let made = calls(InternalOpen::CreateFile, dev, replies);
            let n = made.len() as int;
            &&& n == replies.len() && n >= 1
            &&& replies[0]->Handle_0 is None ==> n == 1
            &&& replies[0]->Handle_0 matches Some(file) ==> {
                &&& n >= 3
                &&& made[n - 1] == (Request::CloseHandle { handle: file })
                &&& replies[1]->Handle_0 is None ==> n == 3
                &&& replies[1]->Handle_0 matches Some(usb) ==> {
                    &&& n >= 5
                    &&& made[n - 2] == (Request::FreeInterface { usb })
                }
                &&& forall|i: int| 0 <= i < n - 2 ==> !releases(#[trigger] made[i])
            }
            &&& after(InternalOpen::CreateFile, dev, replies).0.last_error != CandleErr::Success
        }),
{
    let op0 = InternalOpen::CreateFile;
    completes_by_steps(op0, dev, replies, false);
    let (d1, op1) = op0.next(dev, replies[0]);
    let r1 = replies.drop_first();
    completes_by_steps(op1, d1, r1, false);
    if op1 is Initialize {
        assert(r1[0] == replies[1]);
        let (d2, op2) = op1.next(d1, r1[0]);
        let r2 = r1.drop_first();
        completes_by_steps(op2, d2, r2, false);
        if op2 is QueryInterface {
            open_tail(op2, d2, r2, false);
            let tail = calls(op2, d2, r2);
            let made = calls(op0, dev, replies);
            assert(made =~= seq![op0.pending(dev).unwrap(), op1.pending(d1).unwrap()] + tail);
            assert forall|i: int| 2 <= i < made.len() implies made[i] == tail[i - 2] by {}
            assert(r2.len() == tail.len());
            completes_by_steps(op2.next(d2, r2[0]).1, op2.next(d2, r2[0]).0, r2.drop_first(), false);
        } else {
            let (d3, op3) = op2.next(d2, r2[0]);
            completes_by_steps(op3, d3, r2.drop_first(), false);
        }
    }
}

/// An interface that has not exactly two pipes does not open.
proof fn two_pipes_are_needed(op: InternalOpen, dev: CandleDevice, replies: Seq<Reply>, ok: bool)
    requires
        op.wf(),
        op is FreeInterface || op is CloseFile || op == (InternalOpen::Finished { ok: false })
            || op is QueryPipe && op->endpoints != 2,
        completes(op, dev, replies, ok),
    ensures
        !ok,
    decreases replies.len(),
{
    completes_by_steps(op, dev, replies, ok);
    if replies.len() > 0 {
        let (d, o) = op.next(dev, replies[0]);
        two_pipes_are_needed(o, d, replies.drop_first(), ok);
    }
}

/// A device opens exactly with the answers that `opens` describes; it then holds what they say.
pub proof fn open_succeeds_exactly(dev: CandleDevice, replies: Seq<Reply>, ok: bool)
    requires
        completes(InternalOpen::CreateFile, dev, replies, ok),
    ensures
        ok <==> opens(replies),
        ok ==> after(InternalOpen::CreateFile, dev, replies).0 == opened(dev, replies),
{
    let op0 = InternalOpen::CreateFile;
    completes_by_steps(op0, dev, replies, ok);
    let (d1, op1) = op0.next(dev, replies[0]);
    let r1 = replies.drop_first();
    completes_by_steps(op1, d1, r1, ok);
    if op1 is Initialize {
        let (d2, op2) = op1.next(d1, r1[0]);
        let r2 = r1.drop_first();
        assert(r1[0] == replies[1]);
        if op2 is QueryInterface {
            interface_succeeds_exactly(d2, r2, ok);
            assert(r2 =~= replies.skip(2));
        } else {
            two_pipes_are_needed(op2, d2, r2, ok);
        }
    }
}

/// An opening that has ended within some replies, the first nine of which are those that `opens`
/// describes, has ended with those, successfully.
pub proof fn opening_ends_with_nine(dev: CandleDevice, replies: Seq<Reply>, k: int, ok: bool)
    requires
        0 <= k <= replies.len(),
        9 <= replies.len(),
        completes(InternalOpen::CreateFile, dev, replies.take(k), ok),
        opens(replies.take(9)),
    ensures
        k == 9,
        ok,
{
    let nine = replies.take(9);
    let op0 = InternalOpen::CreateFile;
    let r0 = replies.take(k);
    completes_by_steps(op0, dev, r0, ok);
    assert(r0[0] == nine[0]);
    let (d1, op1) = op0.next(dev, r0[0]);
    let r1 = r0.drop_first();
    assert(op1 is Initialize);
    completes_by_steps(op1, d1, r1, ok);
    assert(r1[0] == nine[1]);
    let (d2, op2) = op1.next(d1, r1[0]);
    let r2 = r1.drop_first();
    assert(op2 is QueryInterface);
    completes_by_steps(op2, d2, r2, ok);
    assert(r2[0] == nine[2]);
    let (d3, op3) = op2.next(d2, r2[0]);
    let r3 = r2.drop_first();
    assert(op3 is QueryPipe);
    completes_by_steps(op3, d3, r3, ok);
    assert(r3[0] == nine[3]);
    let (d4, op4) = op3.next(d3, r3[0]);
    let r4 = r3.drop_first();
    assert(op4 is QueryPipe);
    completes_by_steps(op4, d4, r4, ok);
    assert(r4[0] == nine[4]);
    let (d5, op5) = op4.next(d4, r4[0]);
    let r5 = r4.drop_first();
    assert(op5 is RawIo);
    completes_by_steps(op5, d5, r5, ok);
    assert(r5[0] == nine[5]);
    let (d6, op6) = op5.next(d5, r5[0]);
    let r6 = r5.drop_first();
    assert(op6 is HostFormat);
    completes_by_steps(op6, d6, r6, ok);
    assert(r6[0] == nine[6]);
    let (d7, op7) = op6.next(d6, r6[0]);
    let r7 = r6.drop_first();
    assert(op7 is Config);
    completes_by_steps(op7, d7, r7, ok);
    assert(r7[0] == nine[7]);
    let (d8, op8) = op7.next(d7, r7[0]);
    let r8 = r7.drop_first();
    assert(op8 is Capability);
    completes_by_steps(op8, d8, r8, ok);
    assert(r8[0] == nine[8]);
    let (d9, op9) = op8.next(d8, r8[0]);
    let r9 = r8.drop_first();
    assert(op9 == (InternalOpen::Finished { ok: true }));
    completes_by_steps(op9, d9, r9, ok);
}

/// The answers that `opens` describes take an opening to its end, and it takes no more.
pub proof fn opens_is_enough(dev: CandleDevice, replies: Seq<Reply>)
    requires
        answered(InternalOpen::CreateFile, dev, replies),
        replies.len() >= 9,
        opens(replies.take(9)),
    ensures
        replies.len() == 9,
        completes(InternalOpen::CreateFile, dev, replies, true),
{
    let op0 = InternalOpen::CreateFile;
    let nine = replies.take(9);
    runs_split(op0, dev, replies, 9);
    let (d1, op1) = op0.next(dev, nine[0]);
    let r1 = nine.drop_first();
    assert(answered(op1, d1, r1) && after(op0, dev, nine) == after(op1, d1, r1));
    assert(op1 is Initialize && r1[0] == nine[1]);
    let (d2, op2) = op1.next(d1, r1[0]);
    let r2 = r1.drop_first();
    assert(answered(op2, d2, r2) && after(op0, dev, nine) == after(op2, d2, r2));
    assert(op2 is QueryInterface && r2[0] == nine[2]);
    let (d3, op3) = op2.next(d2, r2[0]);
    let r3 = r2.drop_first();
    assert(answered(op3, d3, r3) && after(op0, dev, nine) == after(op3, d3, r3));
    assert(op3 is QueryPipe && r3[0] == nine[3]);
    let (d4, op4) = op3.next(d3, r3[0]);
    let r4 = r3.drop_first();
    assert(answered(op4, d4, r4) && after(op0, dev, nine) == after(op4, d4, r4));
    assert(op4 is QueryPipe && r4[0] == nine[4]);
    let (d5, op5) = op4.next(d4, r4[0]);
    let r5 = r4.drop_first();
    assert(answered(op5, d5, r5) && after(op0, dev, nine) == after(op5, d5, r5));
    assert(op5 is RawIo && r5[0] == nine[5]);
    let (d6, op6) = op5.next(d5, r5[0]);
    let r6 = r5.drop_first();
    assert(answered(op6, d6, r6) && after(op0, dev, nine) == after(op6, d6, r6));
    assert(op6 is HostFormat && r6[0] == nine[6]);
    let (d7, op7) = op6.next(d6, r6[0]);
    let r7 = r6.drop_first();
    assert(answered(op7, d7, r7) && after(op0, dev, nine) == after(op7, d7, r7));
    assert(op7 is Config && r7[0] == nine[7]);
    let (d8, op8) = op7.next(d7, r7[0]);
    let r8 = r7.drop_first();
    assert(answered(op8, d8, r8) && after(op0, dev, nine) == after(op8, d8, r8));
    assert(op8 is Capability && r8[0] == nine[8]);
    let (d9, op9) = op8.next(d8, r8[0]);
    let r9 = r8.drop_first();
    assert(answered(op9, d9, r9) && after(op0, dev, nine) == after(op9, d9, r9));
    assert(op9 == (InternalOpen::Finished { ok: true }) && r9.len() == 0);
    assert(replies.skip(9).len() == 0);
    assert(replies =~= nine);
}

/// An opening that succeeds releases nothing.
pub proof fn open_that_succeeds_releases_nothing(dev: CandleDevice, replies: Seq<Reply>)
    requires
        completes(InternalOpen::CreateFile, dev, replies, true),
    ensures
        forall|i: int|
            0 <= i < replies.len() ==> !releases(
                #[trigger] calls(InternalOpen::CreateFile, dev, replies)[i],
            ),
{
    let op0 = InternalOpen::CreateFile;
    completes_by_steps(op0, dev, replies, true);
    let (d1, op1) = op0.next(dev, replies[0]);
    let r1 = replies.drop_first();
    completes_by_steps(op1, d1, r1, true);
    let (d2, op2) = op1.next(d1, r1[0]);
    let r2 = r1.drop_first();
    if op2 is QueryInterface {
        open_tail(op2, d2, r2, true);
        let tail = calls(op2, d2, r2);
        let made = calls(op0, dev, replies);
        assert(made =~= seq![op0.pending(dev).unwrap(), op1.pending(d1).unwrap()] + tail);
        assert forall|i: int| 2 <= i < made.len() implies made[i] == tail[i - 2] by {}
    } else {
        two_pipes_are_needed(op2, d2, r2, true);
    }
}

/// The calls of an opening from the descriptor on.
proof fn interface_succeeds_exactly(dev: CandleDevice, replies: Seq<Reply>, ok: bool)
    requires
        completes(InternalOpen::QueryInterface, dev, replies, ok),
    ensures
        ok <==> {
            &&& replies.len() == 7
            &&& replies[0]->Interface_0 is Some
            &&& replies[0]->Interface_0.unwrap().endpoints == 2
            &&& replies[1]->Pipe_0 is Some
            &&& replies[1]->Pipe_0.unwrap().kind == PIPE_BULK
            &&& replies[2]->Pipe_0 is Some
            &&& replies[2]->Pipe_0.unwrap().kind == PIPE_BULK
            &&& replies[3]->Status_ok
            &&& replies[4]->Transfer_ok
            &&& replies[5]->Transfer_ok
            &&& replies[6]->Transfer_ok
        },
        ok ==> after(InternalOpen::QueryInterface, dev, replies).0 == (CandleDevice {
            last_error: CandleErr::Success,
            interface_number: replies[0]->Interface_0.unwrap().number,
            dconf: CandleDeviceConfig::of_bytes(replies[5]->Transfer_data@),
            bt_const: CandleCapability::of_bytes(replies[6]->Transfer_data@),
            ..with_pipe(
                with_pipe(dev, replies[1]->Pipe_0.unwrap().id),
                replies[2]->Pipe_0.unwrap().id,
            )
        }),
{
    let op0 = InternalOpen::QueryInterface;
    completes_by_steps(op0, dev, replies, ok);
    let (d1, op1) = op0.next(dev, replies[0]);
    let r1 = replies.drop_first();
    if op1 is QueryPipe && op1->endpoints == 2 {
        completes_by_steps(op1, d1, r1, ok);
        let (d2, op2) = op1.next(d1, r1[0]);
        let r2 = r1.drop_first();
        assert(r1[0] == replies[1]);
        if op2 is QueryPipe {
            completes_by_steps(op2, d2, r2, ok);
            let (d3, op3) = op2.next(d2, r2[0]);
            let r3 = r2.drop_first();
            assert(r2[0] == replies[2]);
            if op3 is RawIo {
                set_up_succeeds_exactly(d3, r3, ok);
                assert(r3 =~= replies.skip(3));
            } else {
                two_pipes_are_needed(op3, d3, r3, ok);
            }
        } else {
            two_pipes_are_needed(op2, d2, r2, ok);
        }
    } else {
        two_pipes_are_needed(op1, d1, r1, ok);
    }
}

/// The last four calls of an opening.
proof fn set_up_succeeds_exactly(dev: CandleDevice, replies: Seq<Reply>, ok: bool)
    requires
        completes(InternalOpen::RawIo, dev, replies, ok),
    ensures
        ok <==> {
            &&& replies.len() == 4
            &&& replies[0]->Status_ok
            &&& replies[1]->Transfer_ok
            &&& replies[2]->Transfer_ok
            &&& replies[3]->Transfer_ok
        },
        ok ==> after(InternalOpen::RawIo, dev, replies).0 == (CandleDevice {
            last_error: CandleErr::Success,
            dconf: CandleDeviceConfig::of_bytes(replies[2]->Transfer_data@),
            bt_const: CandleCapability::of_bytes(replies[3]->Transfer_data@),
            ..dev
        }),
{
    let op0 = InternalOpen::RawIo;
    completes_by_steps(op0, dev, replies, ok);
    let (d1, op1) = op0.next(dev, replies[0]);
    let r1 = replies.drop_first();
    if op1 is HostFormat {
        completes_by_steps(op1, d1, r1, ok);
        let (d2, op2) = op1.next(d1, r1[0]);
        let r2 = r1.drop_first();
        assert(r1[0] == replies[1]);
        if op2 is Config {
            completes_by_steps(op2, d2, r2, ok);
            let (d3, op3) = op2.next(d2, r2[0]);
            let r3 = r2.drop_first();
            assert(r2[0] == replies[2]);
            if op3 is Capability {
                completes_by_steps(op3, d3, r3, ok);
                let (d4, op4) = op3.next(d3, r3[0]);
                let r4 = r3.drop_first();
                assert(r3[0] == replies[3]);
                if op4 is Finished {
                    completes_by_steps(op4, d4, r4, ok);
                } else {
                    two_pipes_are_needed(op4, d4, r4, ok);
                }
            } else {
                two_pipes_are_needed(op3, d3, r3, ok);
            }
        } else {
            two_pipes_are_needed(op2, d2, r2, ok);
        }
    } else {
        two_pipes_are_needed(op1, d1, r1, ok);
    }
}

/// The call failed, or found a pipe that is no bulk pipe.
pub open spec fn call_fails(request: Request, reply: Reply) -> bool {
    match request {
        Request::CreateFile { .. } => reply->Handle_0 is None,
        Request::Initialize { .. } => reply->Handle_0 is None,
        Request::QueryInterface { .. } => reply->Interface_0 is None,
        Request::QueryPipe { .. } => {
            reply->Pipe_0 is None || reply->Pipe_0.unwrap().kind != PIPE_BULK
        },
        Request::SetPipePolicy { .. } => !reply->Status_ok,
        Request::Control { .. } => !reply->Transfer_ok,
        _ => false,
    }
}

/// The error that a failing call of an opening leaves.
pub open spec fn call_error(request: Request, reply: Reply) -> CandleErr {
    match request {
        Request::CreateFile { .. } => CandleErr::CreateFile,
        Request::Initialize { .. } => CandleErr::WinUsbInitialize,
        Request::QueryInterface { .. } => CandleErr::QueryInterface,
        Request::QueryPipe { .. } => {
            if reply->Pipe_0 is None {
                CandleErr::QueryPipe
            } else {
                CandleErr::ParseIfDescr
            }
        },
        Request::SetPipePolicy { .. } => CandleErr::SetPipeRawIo,
        Request::Control { data: ControlData::HostFormat(_), .. } => CandleErr::SetHostFormat,
        Request::Control { data: ControlData::Config(_), .. } => CandleErr::GetDeviceInfo,
        _ => CandleErr::GetBittimingConst,
    }
}

/// The calls before `f` succeed and release nothing, and those after it release what was opened.
pub open spec fn fails_at(made: Seq<Request>, replies: Seq<Reply>, f: int) -> bool {
    &&& 0 <= f < made.len()
    &&& !releases(made[f])
    &&& forall|i: int|
        0 <= i < f ==> !releases(#[trigger] made[i]) && !call_fails(made[i], replies[i])
    &&& forall|i: int| f < i < made.len() ==> releases(#[trigger] made[i])
}

/// How many pipes are still to be found out about.
pub open spec fn pipes_left(op: InternalOpen) -> int {
    match op {
        InternalOpen::QueryPipe { index, endpoints, .. } => endpoints - index,
        _ => 0,
    }
}

/// From where the interface is open: the third call from the end is the one that went wrong.
proof fn error_tail(op: InternalOpen, dev: CandleDevice, replies: Seq<Reply>)
    requires
        op.wf(),
        holds_interface(op),
        !(op is FreeInterface),
        completes(op, dev, replies, false),
    ensures
        ({
            let made = calls(op, dev, replies);
            let f = made.len() - 3;
            let error = after(op, dev, replies).0.last_error;
            &&& made.len() == replies.len()
            &&& fails_at(made, replies, f)
            &&& call_fails(made[f], replies[f]) ==> error == call_error(made[f], replies[f])
            &&& !call_fails(made[f], replies[f]) ==> {
                &&& error == CandleErr::ParseIfDescr
                &&& op is QueryInterface || op is QueryPipe
                &&& op is QueryInterface ==> {
                    &&& replies[0]->Interface_0 is Some
                    &&& replies[0]->Interface_0.unwrap().endpoints != 2
                    &&& f == replies[0]->Interface_0.unwrap().endpoints
                }
                &&& op is QueryPipe ==> op->endpoints != 2 && f == pipes_left(op) - 1
            }
        }),
    decreases replies.len(),
{
    completes_by_steps(op, dev, replies, false);
    op.advances(dev, replies[0]);
    let (d, o) = op.next(dev, replies[0]);
    let rest = replies.drop_first();
    let made = calls(op, dev, replies);
    let tail = calls(o, d, rest);
    let f = made.len() - 3;
    if o is FreeInterface {
        completes_by_steps(o, d, rest, false);
        let (d2, o2) = o.next(d, rest[0]);
        completes_by_steps(o2, d2, rest.drop_first(), false);
        let (d3, o3) = o2.next(d2, rest.drop_first()[0]);
        completes_by_steps(o3, d3, rest.drop_first().drop_first(), false);
        assert(made.len() == 3);
    } else if o is Finished {
        completes_by_steps(o, d, rest, false);
    } else {
        error_tail(o, d, rest);
        assert(forall|i: int| 1 <= i < made.len() ==> #[trigger] made[i] == tail[i - 1]);
        assert(forall|i: int| 1 <= i < replies.len() ==> #[trigger] replies[i] == rest[i - 1]);
        assert(!releases(made[0]) && !call_fails(made[0], replies[0]));
        assert(fails_at(made, replies, f));
    }
}

/// The call that went wrong.
proof fn wrong_call(dev: CandleDevice, replies: Seq<Reply>) -> (f: int)
    requires
        completes(InternalOpen::CreateFile, dev, replies, false),
    ensures
        ({
            let made = calls(InternalOpen::CreateFile, dev, replies);
            let error = after(InternalOpen::CreateFile, dev, replies).0.last_error;
            &&& fails_at(made, replies, f)
            &&& call_fails(made[f], replies[f]) ==> error == call_error(made[f], replies[f])
            &&& !call_fails(made[f], replies[f]) ==> {
                &&& error == CandleErr::ParseIfDescr
                &&& replies[2]->Interface_0 is Some
                &&& replies[2]->Interface_0.unwrap().endpoints != 2
                &&& f == 2 + replies[2]->Interface_0.unwrap().endpoints
            }
        }),
{
    let op0 = InternalOpen::CreateFile;
    completes_by_steps(op0, dev, replies, false);
    let (d1, op1) = op0.next(dev, replies[0]);
    let r1 = replies.drop_first();
    let made = calls(op0, dev, replies);
    completes_by_steps(op1, d1, r1, false);
    if op1 is Initialize {
        let (d2, op2) = op1.next(d1, r1[0]);
        let r2 = r1.drop_first();
        let tail = calls(op2, d2, r2);
        assert(r1[0] == replies[1]);
        assert(made =~= seq![op0.pending(dev).unwrap(), op1.pending(d1).unwrap()] + tail);
        if op2 is QueryInterface {
            error_tail(op2, d2, r2);
            let f = made.len() - 3;
            assert(forall|i: int| 2 <= i < made.len() ==> #[trigger] made[i] == tail[i - 2]);
            assert(forall|i: int| 2 <= i < replies.len() ==> #[trigger] replies[i] == r2[i - 2]);
            assert(!releases(made[0]) && !call_fails(made[0], replies[0]));
            assert(!releases(made[1]) && !call_fails(made[1], replies[1]));
            assert(fails_at(made, replies, f));
            f
        } else {
            completes_by_steps(op2, d2, r2, false);
            let (d3, op3) = op2.next(d2, r2[0]);
            completes_by_steps(op3, d3, r2.drop_first(), false);
            1
        }
    } else {
        0
    }
}

/// An opening that fails does so at one call: those before it succeeded, and those after it only
/// release. Where a call failed, the error that is left is that of the call; where none did, the
/// interface has not exactly two pipes, and the last call that asked about them is the one.
pub proof fn failed_open_tells_which_call(dev: CandleDevice, replies: Seq<Reply>)
    requires
        completes(InternalOpen::CreateFile, dev, replies, false),
    ensures
        ({
            let made = calls(InternalOpen::CreateFile, dev, replies);
            let error = after(InternalOpen::CreateFile, dev, replies).0.last_error;
            let interface = replies[2]->Interface_0;
            &&& made.len() == replies.len()
            &&& forall|i: int|
                0 <= i < made.len() && call_fails(#[trigger] made[i], replies[i]) ==> {
                    &&& fails_at(made, replies, i)
                    &&& error == call_error(made[i], replies[i])
                }
            &&& (forall|i: int| 0 <= i < made.len() ==> !call_fails(#[trigger] made[i], replies[i]))
                ==> {
                &&& interface is Some
                &&& interface.unwrap().endpoints != 2
                &&& fails_at(made, replies, 2 + interface.unwrap().endpoints)
                &&& error == CandleErr::ParseIfDescr
            }
        }),
{
    let made = calls(InternalOpen::CreateFile, dev, replies);
    let f = wrong_call(dev, replies);
    failed_open_releases_all(dev, replies);
    assert forall|i: int|
        0 <= i < made.len() && call_fails(#[trigger] made[i], replies[i]) implies i == f by {
        if i > f {
            assert(releases(made[i]));
        }
    }
}

/// The numbers of the system for pipes.
pub proof fn system_numbers_of_pipes()
    ensures
        PIPE_BULK == 2,
        POLICY_RAW_IO == 7,
{
}

/// A pipe is read from where its number is 0x80 or more, and else written to; the other pipe stays.
pub proof fn pipes_have_a_direction(dev: CandleDevice, id: u8)
    ensures
        id >= 0x80 ==> with_pipe(dev, id) == (CandleDevice { bulk_in_pipe: id, ..dev }),
        id < 0x80 ==> with_pipe(dev, id) == (CandleDevice { bulk_out_pipe: id, ..dev }),
{
    assert(id & 0x80 != 0 <==> id >= 0x80) by (bit_vector);
}

/// The pipe that is read from after the two pipes of an interface have been found: the last one
/// whose number is 0x80 or more.
pub open spec fn pipe_to_read(dev: CandleDevice, replies: Seq<Reply>) -> u8 {
    let first = replies[3]->Pipe_0.unwrap().id;
    let second = replies[4]->Pipe_0.unwrap().id;
    if second >= 0x80 {
        second
    } else if first >= 0x80 {
        first
    } else {
        dev.bulk_in_pipe
    }
}

/// The pipe that is written to: the last one whose number is less than 0x80.
pub open spec fn pipe_to_write(dev: CandleDevice, replies: Seq<Reply>) -> u8 {
    let first = replies[3]->Pipe_0.unwrap().id;
    let second = replies[4]->Pipe_0.unwrap().id;
    if second < 0x80 {
        second
    } else if first < 0x80 {
        first
    } else {
        dev.bulk_out_pipe
    }
}

/// The call `i` of an opening, as long as nothing has gone wrong: the file of the device by its
/// path, the interface of that file, its descriptor, its pipes in turn, the policy of the pipe that
/// is read from, the byte order, the configuration and the capability of the first channel.
pub open spec fn opening_call(dev: CandleDevice, replies: Seq<Reply>, i: int) -> Request {
    let file = replies[0]->Handle_0.unwrap();
    let usb = replies[1]->Handle_0.unwrap();
    let interface = replies[2]->Interface_0.unwrap();
    let pipes = interface.endpoints as int;
    if i == 0 {
        Request::CreateFile { path: dev.path }
    } else if i == 1 {
        Request::Initialize { file }
    } else if i == 2 {
        Request::QueryInterface { usb }
    } else if i < 3 + pipes {
        Request::QueryPipe { usb, index: (i - 3) as u8 }
    } else if i == 3 + pipes {
        Request::SetPipePolicy { usb, pipe: pipe_to_read(dev, replies), policy: 7, value: 1 }
    } else if i == 4 + pipes {
        Request::Control {
            usb,
            packet: SetupPacket {
                request_type: 0x41,
                request: 0,
                value: 1,
                index: interface.number as u16,
                length: 4,
            },
            data: ControlData::HostFormat(CandleHostConfig { byte_order: 0xbeef }),
        }
    } else if i == 5 + pipes {
        Request::Control {
            usb,
            packet: SetupPacket {
                request_type: 0xC1,
                request: 5,
                value: 1,
                index: interface.number as u16,
                length: 12,
            },
            data: ControlData::Config(dev.dconf),
        }
    } else {
        Request::Control {
            usb,
            packet: SetupPacket {
                request_type: 0xC1,
                request: 4,
                value: 0,
                index: 0,
                length: 40,
            },
            data: ControlData::Capability(dev.bt_const),
        }
    }
}

/// After a failure there are only releases.
proof fn only_releases_follow(op: InternalOpen, dev: CandleDevice, replies: Seq<Reply>, ok: bool)
    requires
        op is FreeInterface || op is CloseFile || op is Finished,
        completes(op, dev, replies, ok),
    ensures
        calls(op, dev, replies).len() == replies.len(),
        forall|i: int|
            0 <= i < replies.len() ==> releases(#[trigger] calls(op, dev, replies)[i]),
    decreases replies.len(),
{
    completes_by_steps(op, dev, replies, ok);
    if replies.len() > 0 {
        let (d, o) = op.next(dev, replies[0]);
        only_releases_follow(o, d, replies.drop_first(), ok);
        let tail = calls(o, d, replies.drop_first());
        assert forall|i: int| 0 <= i < replies.len() implies releases(
            #[trigger] calls(op, dev, replies)[i],
        ) by {
            if i > 0 {
                assert(calls(op, dev, replies)[i] == tail[i - 1]);
            }
        }
    }
}

/// The calls from the setting of the policy on.
proof fn set_up_calls(dev: CandleDevice, replies: Seq<Reply>, ok: bool)
    requires
        completes(InternalOpen::RawIo, dev, replies, ok),
    ensures
        ({
            let made = calls(InternalOpen::RawIo, dev, replies);
            let number = dev.interface_number as u16;
            &&& made.len() == replies.len()
            &&& made.len() > 0
            &&& made[0] == (Request::SetPipePolicy {
                usb: dev.winusb_handle,
                pipe: dev.bulk_in_pipe,
                policy: 7,
                value: 1,
            })
            &&& made.len() > 1 && !releases(made[1]) ==> made[1] == (Request::Control {
                usb: dev.winusb_handle,
                packet: SetupPacket {
                    request_type: 0x41,
                    request: 0,
                    value: 1,
                    index: number,
                    length: 4,
                },
                data: ControlData::HostFormat(CandleHostConfig { byte_order: 0xbeef }),
            })
            &&& made.len() > 2 && !releases(made[2]) ==> made[2] == (Request::Control {
                usb: dev.winusb_handle,
                packet: SetupPacket {
                    request_type: 0xC1,
                    request: 5,
                    value: 1,
                    index: number,
                    length: 12,
                },
                data: ControlData::Config(dev.dconf),
            })
            &&& made.len() > 3 && !releases(made[3]) ==> made[3] == (Request::Control {
                usb: dev.winusb_handle,
                packet: SetupPacket {
                    request_type: 0xC1,
                    request: 4,
                    value: 0,
                    index: 0,
                    length: 40,
                },
                data: ControlData::Capability(dev.bt_const),
            })
            &&& forall|i: int| 4 <= i < made.len() ==> releases(#[trigger] made[i])
        }),
{
    let op0 = InternalOpen::RawIo;
    let made = calls(op0, dev, replies);
    calls_match_replies(op0, dev, replies);
    completes_by_steps(op0, dev, replies, ok);
    let (d1, op1) = op0.next(dev, replies[0]);
    let r1 = replies.drop_first();
    let m1 = calls(op1, d1, r1);
    assert(forall|i: int| 1 <= i < made.len() ==> #[trigger] made[i] == m1[i - 1]);
    if op1 is HostFormat {
        completes_by_steps(op1, d1, r1, ok);
        let (d2, op2) = op1.next(d1, r1[0]);
        let r2 = r1.drop_first();
        let m2 = calls(op2, d2, r2);
        assert(forall|i: int| 2 <= i < made.len() ==> #[trigger] made[i] == m2[i - 2]);
        if op2 is Config {
            completes_by_steps(op2, d2, r2, ok);
            let (d3, op3) = op2.next(d2, r2[0]);
            let r3 = r2.drop_first();
            let m3 = calls(op3, d3, r3);
            assert(forall|i: int| 3 <= i < made.len() ==> #[trigger] made[i] == m3[i - 3]);
            if op3 is Capability {
                completes_by_steps(op3, d3, r3, ok);
                let (d4, op4) = op3.next(d3, r3[0]);
                let r4 = r3.drop_first();
                let m4 = calls(op4, d4, r4);
                assert(forall|i: int| 4 <= i < made.len() ==> #[trigger] made[i] == m4[i - 4]);
                only_releases_follow(op4, d4, r4, ok);
            } else {
                only_releases_follow(op3, d3, r3, ok);
            }
        } else {
            only_releases_follow(op2, d2, r2, ok);
        }
    } else {
        only_releases_follow(op1, d1, r1, ok);
    }
}

/// The calls from a pipe on, where the interface has not two pipes.
proof fn pipe_calls(index: u8, endpoints: u8, dev: CandleDevice, replies: Seq<Reply>, ok: bool)
    requires
        index < endpoints,
        endpoints != 2,
        completes(
            InternalOpen::QueryPipe { index, endpoints, found: index },
            dev,
            replies,
            ok,
        ),
    ensures
        ({
            let made = calls(
                InternalOpen::QueryPipe { index, endpoints, found: index },
                dev,
                replies,
            );
            &&& made.len() == replies.len()
            &&& forall|i: int|
                0 <= i < made.len() && !releases(#[trigger] made[i]) ==> {
                    &&& i < endpoints - index
                    &&& made[i] == (Request::QueryPipe {
                        usb: dev.winusb_handle,
                        index: (index + i) as u8,
                    })
                }
        }),
    decreases replies.len(),
{
    let op = InternalOpen::QueryPipe { index, endpoints, found: index };
    let made = calls(op, dev, replies);
    calls_match_replies(op, dev, replies);
    completes_by_steps(op, dev, replies, ok);
    let (d, o) = op.next(dev, replies[0]);
    let rest = replies.drop_first();
    let tail = calls(o, d, rest);
    assert(forall|i: int| 1 <= i < made.len() ==> #[trigger] made[i] == tail[i - 1]);
    if o is QueryPipe {
        pipe_calls((index + 1) as u8, endpoints, d, rest, ok);
        assert forall|i: int| 0 <= i < made.len() && !releases(#[trigger] made[i]) implies {
            &&& i < endpoints - index
            &&& made[i] == (Request::QueryPipe {
                usb: dev.winusb_handle,
                index: (index + i) as u8,
            })
        } by {
            if i > 0 {
                assert(!releases(tail[i - 1]));
            }
        }
    } else {
        only_releases_follow(o, d, rest, ok);
    }
}

/// Every call of an opening that releases nothing is the one that `opening_call` describes, at its
/// place, however the opening ends.
pub proof fn opening_makes_these_calls(dev: CandleDevice, replies: Seq<Reply>, ok: bool)
    requires
        completes(InternalOpen::CreateFile, dev, replies, ok),
    ensures
        ({
            let made = calls(InternalOpen::CreateFile, dev, replies);
            &&& made.len() == replies.len()
            &&& made.len() > 0
            &&& made[0] == (Request::CreateFile { path: dev.path })
            &&& forall|i: int|
                0 <= i < made.len() && !releases(#[trigger] made[i]) ==> made[i] == opening_call(
                    dev,
                    replies,
                    i,
                )
        }),
{
    let op0 = InternalOpen::CreateFile;
    let made = calls(op0, dev, replies);
    calls_match_replies(op0, dev, replies);
    completes_by_steps(op0, dev, replies, ok);
    let (d1, op1) = op0.next(dev, replies[0]);
    let r1 = replies.drop_first();
    let m1 = calls(op1, d1, r1);
    assert(forall|i: int| 1 <= i < made.len() ==> #[trigger] made[i] == m1[i - 1]);
    if op1 is Initialize {
        completes_by_steps(op1, d1, r1, ok);
        let (d2, op2) = op1.next(d1, r1[0]);
        let r2 = r1.drop_first();
        let m2 = calls(op2, d2, r2);
        assert(r1[0] == replies[1]);
        assert(forall|i: int| 2 <= i < made.len() ==> #[trigger] made[i] == m2[i - 2]);
        if op2 is QueryInterface {
            assert(r2 =~= replies.skip(2));
            interface_calls(dev, d2, replies, ok);
            assert forall|i: int| 0 <= i < made.len() && !releases(#[trigger] made[i]) implies made[i]
                == opening_call(dev, replies, i) by {
                if i >= 2 {
                    assert(!releases(m2[i - 2]));
                }
            }
        } else {
            only_releases_follow(op2, d2, r2, ok);
        }
    } else {
        only_releases_follow(op1, d1, r1, ok);
    }
}

proof fn interface_calls(dev: CandleDevice, d2: CandleDevice, replies: Seq<Reply>, ok: bool)
    requires
        replies.len() >= 2,
        d2 == (CandleDevice {
            device_handle: replies[0]->Handle_0.unwrap(),
            winusb_handle: replies[1]->Handle_0.unwrap(),
            ..dev
        }),
        completes(InternalOpen::QueryInterface, d2, replies.skip(2), ok),
    ensures
        ({
            let made = calls(InternalOpen::QueryInterface, d2, replies.skip(2));
            forall|i: int|
                0 <= i < made.len() && !releases(#[trigger] made[i]) ==> made[i] == opening_call(
                    dev,
                    replies,
                    i + 2,
                )
        }),
{
    let op2 = InternalOpen::QueryInterface;
    let r2 = replies.skip(2);
    let m2 = calls(op2, d2, r2);
    calls_match_replies(op2, d2, r2);
    completes_by_steps(op2, d2, r2, ok);
    assert(r2[0] == replies[2]);
    let (d3, op3) = op2.next(d2, r2[0]);
    let r3 = r2.drop_first();
    let m3 = calls(op3, d3, r3);
    assert(forall|i: int| 1 <= i < m2.len() ==> #[trigger] m2[i] == m3[i - 1]);
    if op3 is QueryPipe && op3->endpoints == 2 {
        completes_by_steps(op3, d3, r3, ok);
        assert(r3[0] == replies[3]);
        let (d4, op4) = op3.next(d3, r3[0]);
        let r4 = r3.drop_first();
        let m4 = calls(op4, d4, r4);
        assert(forall|i: int| 2 <= i < m2.len() ==> #[trigger] m2[i] == m4[i - 2]);
        if op4 is QueryPipe {
            completes_by_steps(op4, d4, r4, ok);
            assert(r4[0] == replies[4]);
            let (d5, op5) = op4.next(d4, r4[0]);
            let r5 = r4.drop_first();
            let m5 = calls(op5, d5, r5);
            assert(forall|i: int| 3 <= i < m2.len() ==> #[trigger] m2[i] == m5[i - 3]);
            if op5 is RawIo {
                pipes_have_a_direction(d3, r3[0]->Pipe_0.unwrap().id);
                pipes_have_a_direction(d4, r4[0]->Pipe_0.unwrap().id);
                assert(d5.bulk_in_pipe == pipe_to_read(dev, replies));
                set_up_calls(d5, r5, ok);
                assert forall|i: int| 0 <= i < m2.len() && !releases(#[trigger] m2[i]) implies m2[i]
                    == opening_call(dev, replies, i + 2) by {
                    if i >= 3 {
                        assert(!releases(m5[i - 3]));
                    }
                }
            } else {
                only_releases_follow(op5, d5, r5, ok);
            }
        } else {
            only_releases_follow(op4, d4, r4, ok);
        }
    } else if op3 is QueryPipe {
        pipe_calls(0, op3->endpoints, d3, r3, ok);
        assert forall|i: int| 0 <= i < m2.len() && !releases(#[trigger] m2[i]) implies m2[i]
            == opening_call(dev, replies, i + 2) by {
            if i >= 1 {
                assert(!releases(m3[i - 1]));
            }
        }
    } else {
        only_releases_follow(op3, d3, r3, ok);
    }
}

/// What a device holds once its interface is open: the file and the interface that were opened, the
/// number of the interface, the pipes by their direction, and the configuration and the capability
/// that were read. Its path, its state and its events stay.
pub proof fn opened_device_holds_what_was_found(dev: CandleDevice, replies: Seq<Reply>)
    requires
        completes(InternalOpen::CreateFile, dev, replies, true),
    ensures
        ({
            let end = after(InternalOpen::CreateFile, dev, replies).0;
            let config = replies[7]->Transfer_data@;
            let capability = replies[8]->Transfer_data@;
            &&& replies.len() == 9
            &&& Some(end.device_handle) == replies[0]->Handle_0
            &&& Some(end.winusb_handle) == replies[1]->Handle_0
            &&& end.interface_number == replies[2]->Interface_0.unwrap().number
            &&& end.bulk_in_pipe == pipe_to_read(dev, replies)
            &&& end.bulk_out_pipe == pipe_to_write(dev, replies)
            &&& end.dconf.icount == config[3]
            &&& stands_at(config, 4, end.dconf.sw_version)
            &&& stands_at(config, 8, end.dconf.hw_version)
            &&& end.dconf == CandleDeviceConfig::of_bytes(config)
            &&& stands_at(capability, 4, end.bt_const.fclk_can)
            &&& end.bt_const == CandleCapability::of_bytes(capability)
            &&& end.last_error is Success
            &&& end.path == dev.path
            &&& end.state == dev.state
            &&& end.rxevents == dev.rxevents
        }),
{
    open_succeeds_exactly(dev, replies, true);
    opening_makes_these_calls(dev, replies, true);
    open_that_succeeds_releases_nothing(dev, replies);
    let first = replies[3]->Pipe_0.unwrap().id;
    let second = replies[4]->Pipe_0.unwrap().id;
    pipes_have_a_direction(dev, first);
    pipes_have_a_direction(with_pipe(dev, first), second);
    let config = replies[7]->Transfer_data@;
    let capability = replies[8]->Transfer_data@;
    let made = calls(InternalOpen::CreateFile, dev, replies);
    runs_answer_calls(InternalOpen::CreateFile, dev, replies, 7);
    runs_answer_calls(InternalOpen::CreateFile, dev, replies, 8);
    assert(made[7] == opening_call(dev, replies, 7));
    assert(made[8] == opening_call(dev, replies, 8));
    read_fields_come_in_order(ControlData::Config(dev.dconf), config);
    read_fields_come_in_order(ControlData::Capability(dev.bt_const), capability);
}

/// What a transfer reads lies over what the device held, whether or not the transfer succeeded.
pub proof fn read_data_lies_over_the_device(dev: CandleDevice, ok: bool, data: Vec<u8>)
    requires
        data@.len() >= 12,
    ensures
        ({
            let d = InternalOpen::Config.next(dev, Reply::Transfer { ok, data }).0;
            &&& d.dconf.icount == data@[3]
            &&& d.dconf == CandleDeviceConfig::of_bytes(data@)
            &&& d == (CandleDevice { dconf: d.dconf, last_error: d.last_error, ..dev })
        }),
        ({
            let d = InternalOpen::Capability.next(dev, Reply::Transfer { ok, data }).0;
            &&& d.bt_const == CandleCapability::of_bytes(data@)
            &&& d == (CandleDevice { bt_const: d.bt_const, last_error: d.last_error, ..dev })
        }),
{
}

} // verus!
