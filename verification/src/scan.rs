//! Finding the devices that are present.

use crate::device::{
    event_at, event_at_is_first, zero_at, zero_at_is_first, CandleDevState, CandleDevice, CandleList,
    CANDLE_MAX_DEVICES,
};
use crate::error::CandleErr;
use crate::lifecycle::{candle_dev_close, close_from, closing_makes_these_calls, DevClose};
use crate::open::{
    candle_dev_internal_open, open_succeeds_exactly, open_that_succeeds_releases_nothing,
    opened_device_holds_what_was_found, opening_call, opening_ends_with_nine,
    opening_makes_these_calls, opens, InternalOpen,
};
use crate::usb::{
    after, answered, calls, calls_match_replies, completes, completes_by_steps, file_change,
    files_left, interface_change, interfaces_left, runs_end_once, runs_split, Operation, Reply,
    Request,
};
use vstd::prelude::*;

verus! {

/// The class of the interfaces of Candle devices.
pub const CANDLE_GUID: u128 = 0xc15b4308_04d3_11e6_b3ea_6057189e6443;

/// The error code of the system for a buffer that is too small. As with every system error, the
/// code that `get_last_err_code` gives for it is another one.
pub const ERROR_INSUFFICIENT_BUFFER: u32 = 122;

/// The error code of the system at the end of a list. As with every system error, the code that
/// `get_last_err_code` gives for it is another one.
pub const ERROR_NO_MORE_ITEMS: u32 = 259;

/// A path after `units`, up to and with the first zero, have been written over it from `i` on.
pub open spec fn overwritten(path: [u16; 256], units: Seq<u16>, i: int) -> [u16; 256]
    decreases 256 - i,
{
    if i >= 256 || i >= units.len() {
        path
    } else {
        let written = vstd::array::spec_array_update(path, i, units[i]);
        if units[i] == 0 {
            written
        } else {
            overwritten(written, units, i + 1)
        }
    }
}

/// What the overwritten path holds: the units up to and with the first zero, as far as they
/// fit, and what was there after them.
pub proof fn overwritten_path(path: [u16; 256], units: Seq<u16>, i: int)
    requires
        0 <= i,
    ensures
        overwritten(path, units, i)@ == Seq::new(
            256,
            |j: int|
                if i <= j < units.len() && j <= zero_at(units, i) {
                    units[j]
                } else {
                    path[j]
                },
        ),
    decreases 256 - i,
{
    if i < 256 && i < units.len() {
        let written = vstd::array::spec_array_update(path, i, units[i]);
        if units[i] != 0 {
            overwritten_path(written, units, i + 1);
            zero_at_is_first(units, i + 1);
        }
    }
    assert(overwritten(path, units, i)@ =~= Seq::new(
        256,
        |j: int|
            if i <= j < units.len() && j <= zero_at(units, i) {
                units[j]
            } else {
                path[j]
            },
    ));
}

/// Writes a path, up to and with its first zero, over another.
pub fn copy_path(path: &mut [u16; 256], units: &[u16])
    ensures
        *final(path) == overwritten(*old(path), units@, 0),
{
    let mut i: usize = 0;
    let ghost before = *path;
    while i < 256 && i < units.len()
        invariant_except_break
            i <= 256,
            overwritten(before, units@, 0) == overwritten(*path, units@, i as int),
        ensures
            *path == overwritten(before, units@, 0),
        decreases 256 - i,
    {
        let val = units[i];
        path[i] = val;
        if val == 0 {
            break;
        }
        i += 1;
    }
}

/// The reading of one entry of the list of interfaces.
#[derive(Debug, Clone, Copy)]
pub enum ReadDi {
    /// The length of the detail is to be found out.
    DetailLength { devs: isize },
    /// The detail is to be read.
    Detail { devs: isize, length: u32 },
    /// The device is being opened, to see whether it can be.
    Opening(InternalOpen),
    /// It could be; it is being closed again.
    Closing(DevClose),
    Finished { ok: bool },
}

impl Operation for ReadDi {
    type State = CandleDevice;

    open spec fn wf(self) -> bool {
        match self {
            ReadDi::Opening(op) => op.wf() && !(op is Finished),
            ReadDi::Closing(op) => op.wf() && !(op is Finished),
            _ => true,
        }
    }

    open spec fn pending(self, dev: CandleDevice) -> Option<Request> {
        match self {
            ReadDi::DetailLength { devs } => Some(Request::DetailLength { devs }),
            ReadDi::Detail { devs, length } => Some(Request::Detail { devs, length }),
            ReadDi::Opening(op) => op.pending(dev),
            ReadDi::Closing(op) => op.pending(dev),
            ReadDi::Finished { .. } => None,
        }
    }

    open spec fn next(self, dev: CandleDevice, reply: Reply) -> (CandleDevice, Self) {
        match (self, reply) {
            (ReadDi::DetailLength { devs }, Reply::Length { length, last_error }) => {
                if last_error == Some(ERROR_INSUFFICIENT_BUFFER) {
                    (
                        CandleDevice { last_error: CandleErr::SetupDiIfDetails, ..dev },
                        ReadDi::Finished { ok: false },
                    )
                } else {
                    (dev, ReadDi::Detail { devs, length })
                }
            },
            (ReadDi::Detail { .. }, Reply::Path(None)) => (
                CandleDevice { last_error: CandleErr::SetupDiIfDetails2, ..dev },
                ReadDi::Finished { ok: false },
            ),
            (ReadDi::Detail { .. }, Reply::Path(Some(units))) => (
                CandleDevice { path: overwritten(dev.path, units@, 0), ..dev },
                ReadDi::Opening(InternalOpen::CreateFile),
            ),
            (ReadDi::Opening(op), _) => {
                let (d, o) = op.next(dev, reply);
                match o.result() {
                    None => (d, ReadDi::Opening(o)),
                    Some(true) => (
                        CandleDevice { state: CandleDevState::Avail, ..d },
                        ReadDi::Closing(close_from(d, 0)),
                    ),
                    Some(false) => (
                        CandleDevice {
                            state: CandleDevState::InUse,
                            last_error: CandleErr::Success,
                            ..d
                        },
                        ReadDi::Finished { ok: true },
                    ),
                }
            },
            (ReadDi::Closing(op), _) => {
                let (d, o) = op.next(dev, reply);
                match o.result() {
                    None => (d, ReadDi::Closing(o)),
                    Some(_) => (
                        CandleDevice { last_error: CandleErr::Success, ..d },
                        ReadDi::Finished { ok: true },
                    ),
                }
            },
            _ => (dev, self),
        }
    }

    open spec fn result(self) -> Option<bool> {
        match self {
            ReadDi::Finished { ok } => Some(ok),
            _ => None,
        }
    }

    open spec fn calls_left(self) -> nat {
        match self {
            ReadDi::DetailLength { .. } => 298,
            ReadDi::Detail { .. } => 297,
            ReadDi::Opening(op) => 32 + op.calls_left(),
            ReadDi::Closing(op) => op.calls_left(),
            ReadDi::Finished { .. } => 0,
        }
    }

    proof fn calls_until_the_end(self, dev: CandleDevice) {
        match self {
            ReadDi::Opening(op) => {
                op.calls_until_the_end(dev);
            },
            ReadDi::Closing(op) => {
                op.calls_until_the_end(dev);
            },
            _ => {},
        }
    }

    proof fn advances(self, dev: CandleDevice, reply: Reply) {
        match self {
            ReadDi::Opening(op) => {
                op.advances(dev, reply);
                event_at_is_first(op.next(dev, reply).0.rxevents, 0);
            },
            ReadDi::Closing(op) => {
                op.advances(dev, reply);
            },
            _ => {},
        }
    }

    fn request(self, dev: &CandleDevice) -> (request: Option<Request>) {
        match self {
            ReadDi::DetailLength { devs } => Some(Request::DetailLength { devs }),
            ReadDi::Detail { devs, length } => Some(Request::Detail { devs, length }),
            ReadDi::Opening(op) => op.request(dev),
            ReadDi::Closing(op) => op.request(dev),
            ReadDi::Finished { .. } => None,
        }
    }

    fn step(self, dev: &mut CandleDevice, reply: &Reply) -> (op: Self) {
        match (self, reply) {
            (ReadDi::DetailLength { devs }, Reply::Length { length, last_error }) => {
                let insufficient = match last_error {
                    Some(code) => *code == ERROR_INSUFFICIENT_BUFFER,
                    None => false,
                };
                if insufficient {
                    dev.last_error = CandleErr::SetupDiIfDetails;
                    ReadDi::Finished { ok: false }
                } else {
                    ReadDi::Detail { devs, length: *length }
                }
            },
            (ReadDi::Detail { .. }, Reply::Path(path)) => match path {
                Some(units) => {
                    copy_path(&mut dev.path, units.as_slice());
                    ReadDi::Opening(candle_dev_internal_open())
                },
                None => {
                    dev.last_error = CandleErr::SetupDiIfDetails2;
                    ReadDi::Finished { ok: false }
                },
            },
            (ReadDi::Opening(op), _) => {
                let op = op.step(dev, reply);
                match op.outcome() {
                    None => ReadDi::Opening(op),
                    Some(ok) => {
                        if ok {
                            dev.state = CandleDevState::Avail;
                            ReadDi::Closing(candle_dev_close(Some(dev)))
                        } else {
                            dev.state = CandleDevState::InUse;
                            dev.last_error = CandleErr::Success;
                            ReadDi::Finished { ok: true }
                        }
                    },
                }
            },
            (ReadDi::Closing(op), _) => {
                let op = op.step(dev, reply);
                match op.outcome() {
                    None => ReadDi::Closing(op),
                    Some(_) => {
                        dev.last_error = CandleErr::Success;
                        ReadDi::Finished { ok: true }
                    },
                }
            },
            _ => self,
        }
    }

    fn outcome(self) -> (ok: Option<bool>) {
        match self {
            ReadDi::Finished { ok } => Some(ok),
            _ => None,
        }
    }
}

/// Starts to read the entry of the list `devs` that was gone to last.
pub fn candle_read_di(devs: isize) -> (op: ReadDi)
    ensures
        op == (ReadDi::DetailLength { devs }),
        op.wf(),
{
    ReadDi::DetailLength { devs }
}

/// The search for devices.
#[derive(Debug, Clone, Copy)]
pub enum ListScan {
    /// The interfaces are to be listed.
    GetClassDevs,
    /// The entry `index` is to be gone to.
    Enumerate { devs: isize, index: usize },
    /// The entry `index` is being read.
    Reading { devs: isize, index: usize, op: ReadDi },
    /// The list of interfaces is to be released.
    Destroy { devs: isize, ok: bool },
    Finished { ok: bool },
}

/// Starts to search for devices: the list to fill, and the search.
pub fn candle_list_scan() -> (r: (CandleList, ListScan))
    ensures
        r.0 == CandleList::zero(),
        r.1 == ListScan::GetClassDevs,
        r.1.wf(),
{
    (CandleList::default(), ListScan::GetClassDevs)
}

impl Operation for ListScan {
    type State = CandleList;

    open spec fn wf(self) -> bool {
        match self {
            ListScan::Enumerate { index, .. } => index < CANDLE_MAX_DEVICES,
            ListScan::Reading { index, op, .. } => {
                index < CANDLE_MAX_DEVICES && op.wf() && !(op is Finished)
            },
            _ => true,
        }
    }

    open spec fn pending(self, list: CandleList) -> Option<Request> {
        match self {
            ListScan::GetClassDevs => Some(Request::GetClassDevs { guid: CANDLE_GUID }),
            ListScan::Enumerate { devs, index } => Some(
                Request::EnumInterface { devs, member: index as u32 },
            ),
            ListScan::Reading { index, op, .. } => op.pending(list.devices[index as int]),
            ListScan::Destroy { devs, .. } => Some(Request::DestroyClassDevs { devs }),
            ListScan::Finished { .. } => None,
        }
    }

    open spec fn next(self, list: CandleList, reply: Reply) -> (CandleList, Self) {
        match (self, reply) {
            (ListScan::GetClassDevs, Reply::Handle(None)) => (
                CandleList { last_error: CandleErr::GetDevices, ..list },
                ListScan::Finished { ok: false },
            ),
            (ListScan::GetClassDevs, Reply::Handle(Some(devs))) => (
                list,
                ListScan::Enumerate { devs, index: 0 },
            ),
            (ListScan::Enumerate { devs, index }, Reply::Status { ok, last_error }) => {
                if ok {
                    (
                        list,
                        ListScan::Reading { devs, index, op: ReadDi::DetailLength { devs } },
                    )
                } else if last_error == Some(ERROR_NO_MORE_ITEMS) {
                    (
                        CandleList {
                            num_devices: index as u8,
                            last_error: CandleErr::Success,
                            ..list
                        },
                        ListScan::Destroy { devs, ok: true },
                    )
                } else {
                    (
                        CandleList { last_error: CandleErr::SetupDiIfEnum, ..list },
                        ListScan::Destroy { devs, ok: false },
                    )
                }
            },
            (ListScan::Reading { devs, index, op }, _) => {
                let (d, o) = op.next(list.devices[index as int], reply);
                let l = CandleList {
                    devices: vstd::array::spec_array_update(list.devices, index as int, d),
                    ..list
                };
                match o.result() {
                    None => (l, ListScan::Reading { devs, index, op: o }),
                    Some(false) => (
                        CandleList { last_error: d.last_error, ..l },
                        ListScan::Destroy { devs, ok: false },
                    ),
                    Some(true) => {
                        if index + 1 < CANDLE_MAX_DEVICES {
                            (l, ListScan::Enumerate { devs, index: (index + 1) as usize })
                        } else {
                            (l, ListScan::Destroy { devs, ok: false })
                        }
                    },
                }
            },
            (ListScan::Destroy { ok, .. }, Reply::Done) => (list, ListScan::Finished { ok }),
            _ => (list, self),
        }
    }

    open spec fn result(self) -> Option<bool> {
        match self {
            ListScan::Finished { ok } => Some(ok),
            _ => None,
        }
    }

    open spec fn calls_left(self) -> nat {
        match self {
            ListScan::GetClassDevs => 9570,
            ListScan::Enumerate { index, .. } => (299 * (32 - index) + 1) as nat,
            ListScan::Reading { index, op, .. } => {
                (299 * (31 - index) + 1 + op.calls_left()) as nat
            },
            ListScan::Destroy { .. } => 1,
            ListScan::Finished { .. } => 0,
        }
    }

    proof fn calls_until_the_end(self, list: CandleList) {
        if let ListScan::Reading { index, op, .. } = self {
            op.calls_until_the_end(list.devices[index as int]);
        }
    }

    proof fn advances(self, list: CandleList, reply: Reply) {
        if let ListScan::Reading { index, op, .. } = self {
            op.advances(list.devices[index as int], reply);
        }
    }

    fn request(self, list: &CandleList) -> (request: Option<Request>) {
        match self {
            ListScan::GetClassDevs => Some(Request::GetClassDevs { guid: CANDLE_GUID }),
            ListScan::Enumerate { devs, index } => Some(
                Request::EnumInterface { devs, member: index as u32 },
            ),
            ListScan::Reading { index, op, .. } => op.request(&list.devices[index]),
            ListScan::Destroy { devs, .. } => Some(Request::DestroyClassDevs { devs }),
            ListScan::Finished { .. } => None,
        }
    }

    fn step(self, list: &mut CandleList, reply: &Reply) -> (op: Self) {
        match (self, reply) {
            (ListScan::GetClassDevs, Reply::Handle(handle)) => match handle {
                Some(devs) => ListScan::Enumerate { devs: *devs, index: 0 },
                None => {
                    list.last_error = CandleErr::GetDevices;
                    ListScan::Finished { ok: false }
                },
            },
            (ListScan::Enumerate { devs, index }, Reply::Status { ok, last_error }) => {
                if *ok {
                    return ListScan::Reading { devs, index, op: candle_read_di(devs) };
                }
                let no_more = match last_error {
                    Some(code) => *code == ERROR_NO_MORE_ITEMS,
                    None => false,
                };
                if no_more {
                    list.num_devices = index as u8;
                    list.last_error = CandleErr::Success;
                } else {
                    list.last_error = CandleErr::SetupDiIfEnum;
                }
                ListScan::Destroy { devs, ok: no_more }
            },
            (ListScan::Reading { devs, index, op }, _) => {
                let mut dev = list.devices[index];
                let op = op.step(&mut dev, reply);
                list.devices[index] = dev;
                match op.outcome() {
                    None => ListScan::Reading { devs, index, op },
                    Some(ok) => {
                        if !ok {
                            list.last_error = dev.last_error;
                            ListScan::Destroy { devs, ok: false }
                        } else if index + 1 < CANDLE_MAX_DEVICES {
                            ListScan::Enumerate { devs, index: index + 1 }
                        } else {
                            ListScan::Destroy { devs, ok: false }
                        }
                    },
                }
            },
            (ListScan::Destroy { ok, .. }, Reply::Done) => ListScan::Finished { ok },
            _ => self,
        }
    }

    fn outcome(self) -> (ok: Option<bool>) {
        match self {
            ListScan::Finished { ok } => Some(ok),
            _ => None,
        }
    }
}

/// An entry that is closed again stays as it is but for its handles.
proof fn closing_phase(op: DevClose, dev: CandleDevice, replies: Seq<Reply>, ok: bool)
    requires
        op.wf(),
        !(op is Finished),
        op is CloseFile ==> dev.winusb_handle == 0,
        completes(ReadDi::Closing(op), dev, replies, ok),
    ensures
        ok,
        after(ReadDi::Closing(op), dev, replies).0 == (CandleDevice {
            winusb_handle: 0,
            device_handle: 0,
            last_error: CandleErr::Success,
            ..dev
        }),
        completes(op, dev, replies, true),
        calls(ReadDi::Closing(op), dev, replies) == calls(op, dev, replies),
    decreases replies.len(),
{
    completes_by_steps(ReadDi::Closing(op), dev, replies, ok);
    op.advances(dev, replies[0]);
    let (d, o) = op.next(dev, replies[0]);
    let rest = replies.drop_first();
    if o is Finished {
        assert(o == (DevClose::Finished { ok: true }));
        completes_by_steps(
            ReadDi::Finished { ok: true },
            CandleDevice { last_error: CandleErr::Success, ..d },
            rest,
            ok,
        );
        assert(answered(o, d, rest) && after(o, d, rest) == (d, o));
        assert(calls(o, d, rest) == Seq::<Request>::empty());
        assert(answered(op, dev, replies));
    } else {
        closing_phase(o, d, rest, ok);
        assert(answered(op, dev, replies));
    }
    assert(calls(op, dev, replies) =~= calls(ReadDi::Closing(op), dev, replies));
}

/// The probing of an entry takes the first replies; whether it succeeded is told by the state.
proof fn probing_phase(
    op: InternalOpen,
    dev: CandleDevice,
    replies: Seq<Reply>,
    ok: bool,
) -> (r: (int, bool))
    requires
        op.wf(),
        !(op is Finished),
        completes(ReadDi::Opening(op), dev, replies, ok),
    ensures
        ({
            let end = after(ReadDi::Opening(op), dev, replies).0;
            &&& 0 <= r.0 <= replies.len()
            &&& completes(op, dev, replies.take(r.0), r.1)
            &&& ok
            &&& end.path == dev.path
            &&& end.last_error == CandleErr::Success
            &&& r.1 ==> end.state is Avail && end.device_handle == 0 && end.winusb_handle == 0
            &&& !r.1 ==> end.state is InUse && r.0 == replies.len()
            &&& !r.1 ==> calls(ReadDi::Opening(op), dev, replies) == calls(op, dev, replies)
            &&& r.1 ==> {
                let d = CandleDevice {
                    state: CandleDevState::Avail,
                    ..after(op, dev, replies.take(r.0)).0
                };
                &&& completes(close_from(d, 0), d, replies.skip(r.0), true)
                &&& calls(ReadDi::Opening(op), dev, replies) == calls(op, dev, replies.take(r.0))
                    + calls(close_from(d, 0), d, replies.skip(r.0))
            }
        }),
    decreases replies.len(),
{
    completes_by_steps(ReadDi::Opening(op), dev, replies, ok);
    op.advances(dev, replies[0]);
    let (d, o) = op.next(dev, replies[0]);
    let rest = replies.drop_first();
    if o is Finished {
        let one = replies.take(1);
        assert(one.drop_first() =~= Seq::empty());
        reveal_with_fuel(after, 2);
        reveal_with_fuel(answered, 2);
        reveal_with_fuel(calls, 2);
        let (d2, o2) = ReadDi::Opening(op).next(dev, replies[0]);
        assert(replies.skip(1) =~= rest);
        assert(calls(op, dev, one) =~= seq![op.pending(dev).unwrap()]);
        if o->ok {
            event_at_is_first(d.rxevents, 0);
            closing_phase(close_from(d, 0), d2, rest, ok);
            (1, true)
        } else {
            completes_by_steps(o2, d2, rest, ok);
            assert(replies =~= one);
            (1, false)
        }
    } else {
        let (k, b) = probing_phase(o, d, rest, ok);
        let head = replies.take(k + 1);
        assert(head.drop_first() =~= rest.take(k));
        assert(replies.skip(k + 1) =~= rest.skip(k));
        if b {
            let end = CandleDevice {
                state: CandleDevState::Avail,
                ..after(op, dev, head).0
            };
            assert(calls(ReadDi::Opening(op), dev, replies) =~= calls(op, dev, head) + calls(
                close_from(end, 0),
                end,
                replies.skip(k + 1),
            ));
        }
        (k + 1, b)
    }
}

/// An entry that was read has the path in its detail, and says that the device is available
/// exactly where the answers were those with which a device opens. It is then closed again.
pub proof fn entry_tells_whether_it_opens(dev: CandleDevice, devs: isize, replies: Seq<Reply>)
    requires
        completes(ReadDi::DetailLength { devs }, dev, replies, true),
    ensures
        ({
            let end = after(ReadDi::DetailLength { devs }, dev, replies).0;
            &&& replies.len() >= 3
            &&& replies[1]->Path_0 is Some
            &&& end.path == overwritten(dev.path, replies[1]->Path_0.unwrap()@, 0)
            &&& end.state is Avail <==> replies.len() >= 11 && opens(replies.subrange(2, 11))
            &&& was_read(end)
        }),
{
    let op0 = ReadDi::DetailLength { devs };
    completes_by_steps(op0, dev, replies, true);
    let (d1, op1) = op0.next(dev, replies[0]);
    let r1 = replies.drop_first();
    completes_by_steps(op1, d1, r1, true);
    let (d2, op2) = op1.next(d1, r1[0]);
    let r2 = r1.drop_first();
    assert(r1[0] == replies[1]);
    completes_by_steps(op2, d2, r2, true);
    let inner = InternalOpen::CreateFile;
    let (k, b) = probing_phase(inner, d2, r2, true);
    open_succeeds_exactly(d2, r2.take(k), b);
    if r2.len() >= 9 {
        assert(r2.take(9) =~= replies.subrange(2, 11));
        if opens(r2.take(9)) {
            opening_ends_with_nine(d2, r2, k, b);
        }
    }
}

/// The list of interfaces that a search works on.
pub open spec fn class_list(op: ListScan) -> isize {
    match op {
        ListScan::Enumerate { devs, .. } => devs,
        ListScan::Reading { devs, .. } => devs,
        ListScan::Destroy { devs, .. } => devs,
        _ => 0,
    }
}

proof fn scan_tail(op: ListScan, list: CandleList, replies: Seq<Reply>, ok: bool)
    requires
        op.wf(),
        op is Enumerate || op is Reading || op is Destroy,
        completes(op, list, replies, ok),
    ensures
        ({
            let made = calls(op, list, replies);
            let n = made.len() as int;
            &&& n == replies.len() && n >= 1
            &&& made[n - 1] == (Request::DestroyClassDevs { devs: class_list(op) })
            &&& forall|i: int| 0 <= i < n - 1 ==> !(#[trigger] made[i] is DestroyClassDevs)
        }),
    decreases replies.len(),
{
    completes_by_steps(op, list, replies, ok);
    op.advances(list, replies[0]);
    let (l, o) = op.next(list, replies[0]);
    let rest = replies.drop_first();
    if op is Destroy {
        completes_by_steps(o, l, rest, ok);
    } else {
        scan_tail(o, l, rest, ok);
        let made = calls(op, list, replies);
        let tail = calls(o, l, rest);
        assert forall|i: int| 1 <= i < made.len() implies made[i] == tail[i - 1] by {}
    }
}

/// A search releases the list of interfaces that it got, once, as its last call, however it ends.
pub proof fn scan_releases_the_class_list(list: CandleList, replies: Seq<Reply>, ok: bool)
    requires
        completes(ListScan::GetClassDevs, list, replies, ok),
    ensures
        ({
            let made = calls(ListScan::GetClassDevs, list, replies);
            let n = made.len() as int;
            &&& n == replies.len() && n >= 1
            &&& replies[0]->Handle_0 is None ==> n == 1 && !ok
            &&& replies[0]->Handle_0 matches Some(devs) ==> {
                &&& n >= 2
                &&& made[n - 1] == (Request::DestroyClassDevs { devs })
                &&& forall|i: int| 0 <= i < n - 1 ==> !(#[trigger] made[i] is DestroyClassDevs)
            }
        }),
{
    let op = ListScan::GetClassDevs;
    completes_by_steps(op, list, replies, ok);
    let (l, o) = op.next(list, replies[0]);
    let rest = replies.drop_first();
    if o is Finished {
        completes_by_steps(o, l, rest, ok);
    } else {
        scan_tail(o, l, rest, ok);
        let made = calls(op, list, replies);
        let tail = calls(o, l, rest);
        assert forall|i: int| 1 <= i < made.len() implies made[i] == tail[i - 1] by {}
    }
}

/// The number of files that are open where a search stands.
pub open spec fn files_held(op: ListScan) -> int {
    match op {
        ListScan::Reading { op: ReadDi::Opening(o), .. } => {
            if o is CreateFile || o is Finished {
                0
            } else {
                1
            }
        },
        ListScan::Reading { op: ReadDi::Closing(o), .. } => 1,
        _ => 0,
    }
}

/// The number of interfaces that are open where a search stands.
pub open spec fn interfaces_held(op: ListScan) -> int {
    match op {
        ListScan::Reading { op: ReadDi::Opening(o), .. } => {
            if o is CreateFile || o is Initialize || o is CloseFile || o is Finished {
                0
            } else {
                1
            }
        },
        ListScan::Reading { op: ReadDi::Closing(o), .. } => {
            if o is FreeInterface {
                1
            } else {
                0
            }
        },
        _ => 0,
    }
}

/// No device of the list has an event.
pub open spec fn eventless(list: CandleList) -> bool {
    forall|i: int| 0 <= i < 32 ==> event_at(#[trigger] list.devices[i].rxevents, 0) == 30
}

/// An eventless device is closed without closing an event.
pub open spec fn closes_no_event(op: ListScan) -> bool {
    op matches ListScan::Reading { op: ReadDi::Closing(o), .. } ==> !(o is CloseEvent)
}

proof fn scan_step_keeps_count(op: ListScan, list: CandleList, reply: Reply)
    requires
        op.wf(),
        eventless(list),
        closes_no_event(op),
        op.pending(list) is Some,
        reply.answers(op.pending(list).unwrap()),
    ensures
        ({
            let (l, o) = op.next(list, reply);
            &&& o.wf()
            &&& eventless(l)
            &&& closes_no_event(o)
            &&& files_held(o) == files_held(op) + file_change(op.pending(list).unwrap(), reply)
            &&& interfaces_held(o) == interfaces_held(op) + interface_change(
                op.pending(list).unwrap(),
                reply,
            )
        }),
{
    let (l, o) = op.next(list, reply);
    if let ListScan::Reading { index, op: inner, .. } = op {
        let dev = list.devices[index as int];
        let (d, _i) = inner.next(dev, reply);
        assert(event_at(dev.rxevents, 0) == 30);
        assert(d.rxevents == dev.rxevents);
        assert forall|i: int| 0 <= i < 32 implies event_at(#[trigger] l.devices[i].rxevents, 0)
            == 30 by {
            assert(event_at(list.devices[i].rxevents, 0) == 30);
        }
    }
}

proof fn scan_keeps_count(op: ListScan, list: CandleList, replies: Seq<Reply>, ok: bool)
    requires
        op.wf(),
        eventless(list),
        closes_no_event(op),
        completes(op, list, replies, ok),
    ensures
        files_left(op, list, replies) == -files_held(op),
        interfaces_left(op, list, replies) == -interfaces_held(op),
    decreases replies.len(),
{
    completes_by_steps(op, list, replies, ok);
    if replies.len() > 0 {
        scan_step_keeps_count(op, list, replies[0]);
        let (l, o) = op.next(list, replies[0]);
        scan_keeps_count(o, l, replies.drop_first(), ok);
    }
}

/// A search, however it ends, leaves open neither a file nor an interface: it closes as many as
/// it opens.
pub proof fn scan_leaves_nothing_open(replies: Seq<Reply>, ok: bool)
    requires
        completes(ListScan::GetClassDevs, CandleList::zero(), replies, ok),
    ensures
        files_left(ListScan::GetClassDevs, CandleList::zero(), replies) == 0,
        interfaces_left(ListScan::GetClassDevs, CandleList::zero(), replies) == 0,
{
    let list = CandleList::zero();
    no_events(CandleDevice::zero().rxevents, 0);
    scan_keeps_count(ListScan::GetClassDevs, list, replies, ok);
}

proof fn no_events(events: [isize; 30], from: int)
    requires
        0 <= from <= 30,
        forall|i: int| 0 <= i < 30 ==> events[i] == 0,
    ensures
        event_at(events, from) == 30,
    decreases 30 - from,
{
    if from < 30 {
        no_events(events, from + 1);
    }
}

/// What a search has found where it stands at the entry `index`: nothing is counted yet, each
/// entry before it was read without an error, and is closed again if it could be opened, and
/// nothing is known of those after it.
pub open spec fn found_so_far(list: CandleList, index: int, reading: bool) -> bool {
    &&& list.num_devices == 0
    &&& forall|i: int| 0 <= i < index ==> was_read(#[trigger] list.devices[i])
    &&& forall|i: int|
        index <= i < 32 && !(reading && i == index) ==> #[trigger] list.devices[i]
            == CandleDevice::zero()
}

/// The device was read without an error and is not open.
pub open spec fn was_read(dev: CandleDevice) -> bool {
    &&& dev.last_error == CandleErr::Success
    &&& dev.state is Avail ==> dev.device_handle == 0 && dev.winusb_handle == 0
}

/// The list after a search.
pub open spec fn scanned(list: CandleList, ok: bool) -> bool {
    &&& ok ==> {
        &&& list.num_devices < 32
        &&& list.last_error == CandleErr::Success
        &&& forall|i: int| 0 <= i < list.num_devices ==> was_read(#[trigger] list.devices[i])
        &&& forall|i: int|
            list.num_devices <= i < 32 ==> #[trigger] list.devices[i] == CandleDevice::zero()
    }
    &&& !ok ==> list.num_devices == 0
}

/// What holds where a search stands.
pub open spec fn scan_so_far(op: ListScan, list: CandleList) -> bool {
    match op {
        ListScan::GetClassDevs => found_so_far(list, 0, false),
        ListScan::Enumerate { index, .. } => found_so_far(list, index as int, false),
        ListScan::Reading { index, op, .. } => {
            &&& found_so_far(list, index as int, true)
            &&& op == ReadDi::Closing(DevClose::CloseFile)
                ==> list.devices[index as int].winusb_handle == 0
        },
        ListScan::Destroy { ok, .. } => scanned(list, ok),
        ListScan::Finished { ok } => scanned(list, ok),
    }
}

proof fn scan_step_finds(op: ListScan, list: CandleList, reply: Reply)
    requires
        op.wf(),
        scan_so_far(op, list),
        op.pending(list) is Some,
        reply.answers(op.pending(list).unwrap()),
    ensures
        op.next(list, reply).1.wf(),
        scan_so_far(op.next(list, reply).1, op.next(list, reply).0),
{
    op.advances(list, reply);
    let (l, o) = op.next(list, reply);
    if let ListScan::Reading { index, op: inner, .. } = op {
        let dev = list.devices[index as int];
        let (d, i) = inner.next(dev, reply);
        assert(l.devices[index as int] == d);
        assert(forall|j: int|
            0 <= j < 32 && j != index ==> #[trigger] l.devices[j] == list.devices[j]);
        if i == (ReadDi::Finished { ok: true }) {
            assert(was_read(d));
        }
    }
}

proof fn scan_finds(op: ListScan, list: CandleList, replies: Seq<Reply>, ok: bool)
    requires
        op.wf(),
        scan_so_far(op, list),
        completes(op, list, replies, ok),
    ensures
        scanned(after(op, list, replies).0, ok),
    decreases replies.len(),
{
    completes_by_steps(op, list, replies, ok);
    if replies.len() > 0 {
        scan_step_finds(op, list, replies[0]);
        let (l, o) = op.next(list, replies[0]);
        scan_finds(o, l, replies.drop_first(), ok);
    }
}

/// A search that succeeds has found fewer devices than a list holds, each of them read without
/// an error and closed again if it could be opened, and has left the other entries as they were.
/// One that fails counts none.
pub proof fn scan_counts_what_it_read(replies: Seq<Reply>, ok: bool)
    requires
        completes(ListScan::GetClassDevs, CandleList::zero(), replies, ok),
    ensures
        scanned(after(ListScan::GetClassDevs, CandleList::zero(), replies).0, ok),
{
    scan_finds(ListScan::GetClassDevs, CandleList::zero(), replies, ok);
}

/// An entry is read exactly where the question for the length of its detail left no error
/// `ERROR_INSUFFICIENT_BUFFER` and the detail was read; whether the device can be opened plays no
/// part. Where it is not read, the error says which of the two it was.
pub proof fn entry_is_read_exactly(dev: CandleDevice, devs: isize, replies: Seq<Reply>, ok: bool)
    requires
        completes(ReadDi::DetailLength { devs }, dev, replies, ok),
    ensures
        ({
            let too_small = replies[0]->Length_last_error == Some(ERROR_INSUFFICIENT_BUFFER);
            let end = after(ReadDi::DetailLength { devs }, dev, replies).0;
            &&& ok <==> !too_small && replies[1]->Path_0 is Some
            &&& too_small ==> {
                &&& replies.len() == 1
                &&& end == (CandleDevice { last_error: CandleErr::SetupDiIfDetails, ..dev })
            }
            &&& !too_small && replies[1]->Path_0 is None ==> {
                &&& replies.len() == 2
                &&& end == (CandleDevice { last_error: CandleErr::SetupDiIfDetails2, ..dev })
            }
        }),
{
    let op0 = ReadDi::DetailLength { devs };
    completes_by_steps(op0, dev, replies, ok);
    let (d1, op1) = op0.next(dev, replies[0]);
    let r1 = replies.drop_first();
    completes_by_steps(op1, d1, r1, ok);
    if op1 is Detail {
        let (d2, op2) = op1.next(d1, r1[0]);
        let r2 = r1.drop_first();
        assert(r1[0] == replies[1]);
        completes_by_steps(op2, d2, r2, ok);
        if op2 is Opening {
            let (_k, _b) = probing_phase(InternalOpen::CreateFile, d2, r2, ok);
        }
    }
}

/// The device that reading an entry leaves.
pub open spec fn entry_device(devs: isize, entry: Seq<Reply>) -> CandleDevice {
    after(ReadDi::DetailLength { devs }, CandleDevice::zero(), entry).0
}

/// The replies of a search from where it goes to an interface on: for each of the `entries`, that
/// going to it succeeded, and then the replies with which it was read; then that there are no more
/// interfaces, and the release of the list.
pub open spec fn finds_entries(
    devs: isize,
    replies: Seq<Reply>,
    entries: Seq<Seq<Reply>>,
) -> bool
    decreases entries.len(),
{
    if entries.len() == 0 {
        &&& replies.len() == 2
        &&& !replies[0]->Status_ok
        &&& replies[0]->Status_last_error == Some(ERROR_NO_MORE_ITEMS)
    } else {
        let n = entries[0].len() as int;
        &&& replies.len() > n
        &&& replies[0]->Status_ok
        &&& replies.subrange(1, n + 1) == entries[0]
        &&& completes(ReadDi::DetailLength { devs }, CandleDevice::zero(), entries[0], true)
        &&& finds_entries(devs, replies.skip(n + 1), entries.drop_first())
    }
}

/// The replies of a search that finds the `entries`, which are fewer than a list holds.
pub open spec fn search_finds(replies: Seq<Reply>, entries: Seq<Seq<Reply>>) -> bool {
    &&& replies.len() > 0
    &&& replies[0]->Handle_0 is Some
    &&& entries.len() < CANDLE_MAX_DEVICES
    &&& finds_entries(replies[0]->Handle_0.unwrap(), replies.drop_first(), entries)
}

/// Where a search stands once the entry `index` has been read, or not: `d` is its device.
pub open spec fn after_entry(
    list: CandleList,
    devs: isize,
    index: int,
    d: CandleDevice,
    read: bool,
) -> (CandleList, ListScan) {
    let l = CandleList {
        devices: vstd::array::spec_array_update(list.devices, index, d),
        ..list
    };
    if !read {
        (CandleList { last_error: d.last_error, ..l }, ListScan::Destroy { devs, ok: false })
    } else if index + 1 < CANDLE_MAX_DEVICES {
        (l, ListScan::Enumerate { devs, index: (index + 1) as usize })
    } else {
        (l, ListScan::Destroy { devs, ok: false })
    }
}

/// The replies that read an entry take a search past that entry.
proof fn entry_lifts(
    op: ReadDi,
    list: CandleList,
    devs: isize,
    index: usize,
    entry: Seq<Reply>,
    read: bool,
)
    requires
        op.wf(),
        !(op is Finished),
        index < 32,
        completes(op, list.devices[index as int], entry, read),
    ensures
        ({
            let scan = ListScan::Reading { devs, index, op };
            let d = after(op, list.devices[index as int], entry).0;
            &&& answered(scan, list, entry)
            &&& after(scan, list, entry) == after_entry(list, devs, index as int, d, read)
        }),
    decreases entry.len(),
{
    let scan = ListScan::Reading { devs, index, op };
    let dev = list.devices[index as int];
    completes_by_steps(op, dev, entry, read);
    op.advances(dev, entry[0]);
    let (d1, op1) = op.next(dev, entry[0]);
    let rest = entry.drop_first();
    completes_by_steps(op1, d1, rest, read);
    let (l1, scan1) = scan.next(list, entry[0]);
    if op1 is Finished {
        assert(rest.len() == 0) by {
            op1.calls_until_the_end(d1);
        }
        assert(answered(scan1, l1, rest));
        assert(after(scan1, l1, rest) == (l1, scan1));
    } else {
        entry_lifts(op1, l1, devs, index, rest, read);
        let d = after(op, dev, entry).0;
        assert(vstd::array::spec_array_update(l1.devices, index as int, d)
            =~= vstd::array::spec_array_update(list.devices, index as int, d));
    }
}

/// The reading of an entry comes to its end within a search that does.
proof fn entry_ends(
    op: ReadDi,
    list: CandleList,
    devs: isize,
    index: usize,
    replies: Seq<Reply>,
    ok: bool,
) -> (r: (int, bool))
    requires
        op.wf(),
        !(op is Finished),
        index < 32,
        completes(ListScan::Reading { devs, index, op }, list, replies, ok),
    ensures
        0 <= r.0 <= replies.len(),
        completes(op, list.devices[index as int], replies.take(r.0), r.1),
    decreases replies.len(),
{
    let scan = ListScan::Reading { devs, index, op };
    let dev = list.devices[index as int];
    completes_by_steps(scan, list, replies, ok);
    op.advances(dev, replies[0]);
    let (d1, op1) = op.next(dev, replies[0]);
    let rest = replies.drop_first();
    if op1 is Finished {
        let one = replies.take(1);
        assert(one.drop_first() =~= Seq::empty());
        reveal_with_fuel(after, 2);
        reveal_with_fuel(answered, 2);
        (1, op1->ok)
    } else {
        let (l1, _scan1) = scan.next(list, replies[0]);
        let (k, b) = entry_ends(op1, l1, devs, index, rest, ok);
        assert(replies.take(k + 1).drop_first() =~= rest.take(k));
        (k + 1, b)
    }
}

/// Nothing is known of the entries from `index` on.
pub open spec fn untouched_from(list: CandleList, index: int) -> bool {
    forall|i: int| index <= i < 32 ==> #[trigger] list.devices[i] == CandleDevice::zero()
}

/// A search that fails once it has got its list does not succeed.
proof fn destroy_keeps(devs: isize, read: bool, list: CandleList, replies: Seq<Reply>, ok: bool)
    requires
        completes(ListScan::Destroy { devs, ok: read }, list, replies, ok),
    ensures
        ok == read,
        replies.len() == 1,
        after(ListScan::Destroy { devs, ok: read }, list, replies).0 == list,
{
    let op = ListScan::Destroy { devs, ok: read };
    completes_by_steps(op, list, replies, ok);
    let (l, o) = op.next(list, replies[0]);
    completes_by_steps(o, l, replies.drop_first(), ok);
}

/// A search that succeeds has replies of the form that `finds_entries` describes.
proof fn success_has_entries(
    devs: isize,
    index: usize,
    list: CandleList,
    replies: Seq<Reply>,
) -> (entries: Seq<Seq<Reply>>)
    requires
        index < 32,
        untouched_from(list, index as int),
        completes(ListScan::Enumerate { devs, index }, list, replies, true),
    ensures
        index + entries.len() < 32,
        finds_entries(devs, replies, entries),
    decreases replies.len(),
{
    let op = ListScan::Enumerate { devs, index };
    completes_by_steps(op, list, replies, true);
    let (l1, op1) = op.next(list, replies[0]);
    let rest = replies.drop_first();
    if op1 is Destroy {
        destroy_keeps(devs, op1->Destroy_ok, l1, rest, true);
        Seq::empty()
    } else {
        let inner = ReadDi::DetailLength { devs };
        let (k, b) = entry_ends(inner, list, devs, index, rest, true);
        let entry = rest.take(k);
        entry_lifts(inner, list, devs, index, entry, b);
        runs_split(op1, list, rest, k);
        let (l2, op2) = after(op1, list, entry);
        let tail = rest.skip(k);
        if op2 is Destroy {
            destroy_keeps(devs, op2->Destroy_ok, l2, tail, true);
            Seq::empty()
        } else {
            assert(untouched_from(l2, index + 1));
            let later = success_has_entries(devs, (index + 1) as usize, l2, tail);
            let entries = seq![entry] + later;
            assert(entries.drop_first() =~= later);
            assert(replies.subrange(1, k + 1) =~= entry);
            assert(replies.skip(k + 1) =~= tail);
            entries
        }
    }
}

/// A search that has ended within some replies, the first of which are of the form that
/// `finds_entries` describes, has ended with those, and has found the entries.
proof fn entries_are_found(
    devs: isize,
    index: usize,
    list: CandleList,
    replies: Seq<Reply>,
    k: int,
    ok: bool,
    m: int,
    entries: Seq<Seq<Reply>>,
)
    requires
        untouched_from(list, index as int),
        index + entries.len() < 32,
        0 <= k <= replies.len(),
        0 <= m <= replies.len(),
        completes(ListScan::Enumerate { devs, index }, list, replies.take(k), ok),
        finds_entries(devs, replies.take(m), entries),
    ensures
        ({
            let end = after(ListScan::Enumerate { devs, index }, list, replies.take(k)).0;
            &&& k == m
            &&& ok
            &&& end.num_devices == index + entries.len()
            &&& forall|i: int| 0 <= i < index ==> #[trigger] end.devices[i] == list.devices[i]
            &&& forall|i: int|
                0 <= i < entries.len() ==> end.devices[index + i] == entry_device(
                    devs,
                    #[trigger] entries[i],
                )
        }),
    decreases entries.len(),
{
    let op = ListScan::Enumerate { devs, index };
    let got = replies.take(k);
    completes_by_steps(op, list, got, ok);
    let (l1, op1) = op.next(list, got[0]);
    let rest = replies.drop_first();
    assert(got.drop_first() =~= rest.take(k - 1));
    assert(got[0] == replies[0] && replies.take(m)[0] == replies[0]);
    if entries.len() == 0 {
        destroy_keeps(devs, true, l1, rest.take(k - 1), ok);
    } else {
        let inner = ReadDi::DetailLength { devs };
        let n = entries[0].len() as int;
        let (e, b) = entry_ends(inner, list, devs, index, rest.take(k - 1), ok);
        assert(rest.take(k - 1).take(e) =~= rest.take(e));
        assert(replies.take(m).subrange(1, n + 1) =~= rest.take(n));
        runs_end_once(inner, CandleDevice::zero(), rest, e, b, n, true);
        entry_lifts(inner, list, devs, index, entries[0], true);
        runs_split(op1, list, rest.take(k - 1), n);
        let (l2, _op2) = after(op1, list, entries[0]);
        let tail = rest.skip(n);
        assert(rest.take(k - 1).skip(n) =~= tail.take(k - 1 - n));
        assert(replies.take(m).skip(n + 1) =~= tail.take(m - 1 - n));
        assert(untouched_from(l2, index + 1));
        let later = entries.drop_first();
        entries_are_found(
            devs,
            (index + 1) as usize,
            l2,
            tail,
            k - 1 - n,
            ok,
            m - 1 - n,
            later,
        );
        let end = after(op, list, got).0;
        assert forall|i: int| 0 <= i < entries.len() implies end.devices[index + i]
            == entry_device(devs, #[trigger] entries[i]) by {
            if i == 0 {
                assert(end.devices[index as int] == l2.devices[index as int]);
            } else {
                assert(later[i - 1] == entries[i]);
                assert(end.devices[(index + 1) + (i - 1)] == entry_device(devs, later[i - 1]));
            }
        }
        assert forall|i: int| 0 <= i < index implies #[trigger] end.devices[i]
            == list.devices[i] by {
            assert(end.devices[i] == l2.devices[i]);
        }
    }
}

/// A search that has ended within some replies, the first `m` of which find some entries, has ended
/// with those, successfully.
pub proof fn search_ends_with_its_entries(
    replies: Seq<Reply>,
    k: int,
    ok: bool,
    m: int,
    entries: Seq<Seq<Reply>>,
)
    requires
        0 <= k <= replies.len(),
        0 <= m <= replies.len(),
        completes(ListScan::GetClassDevs, CandleList::zero(), replies.take(k), ok),
        search_finds(replies.take(m), entries),
    ensures
        ({
            let end = after(ListScan::GetClassDevs, CandleList::zero(), replies.take(k)).0;
            &&& k == m
            &&& ok
            &&& end.num_devices == entries.len()
            &&& forall|i: int|
                0 <= i < entries.len() ==> end.devices[i] == entry_device(
                    replies[0]->Handle_0.unwrap(),
                    #[trigger] entries[i],
                )
        }),
{
    let op = ListScan::GetClassDevs;
    let list = CandleList::zero();
    let got = replies.take(k);
    completes_by_steps(op, list, got, ok);
    let rest = replies.drop_first();
    assert(replies.take(m)[0] == replies[0]);
    let devs = replies[0]->Handle_0.unwrap();
    assert(got.drop_first() =~= rest.take(k - 1));
    assert(replies.take(m).drop_first() =~= rest.take(m - 1));
    assert(untouched_from(list, 0));
    entries_are_found(devs, 0, list, rest, k - 1, ok, m - 1, entries);
    let end = after(op, list, got).0;
    assert forall|i: int| 0 <= i < entries.len() implies end.devices[i] == entry_device(
        devs,
        #[trigger] entries[i],
    ) by {
        assert(end.devices[0 + i] == entry_device(devs, entries[i]));
    }
}

/// A search succeeds exactly where the list of interfaces was got, some number of interfaces below
/// 32 were gone to in turn and read, and going to the next one gave `ERROR_NO_MORE_ITEMS`. That
/// number is the number of devices, and the devices are what was read.
pub proof fn search_succeeds_exactly(replies: Seq<Reply>, ok: bool)
    requires
        completes(ListScan::GetClassDevs, CandleList::zero(), replies, ok),
    ensures
        ({
            let end = after(ListScan::GetClassDevs, CandleList::zero(), replies).0;
            &&& ok <==> exists|entries: Seq<Seq<Reply>>| search_finds(replies, entries)
            &&& forall|entries: Seq<Seq<Reply>>| #[trigger]
                search_finds(replies, entries) ==> {
                    &&& end.num_devices == entries.len()
                    &&& forall|i: int|
                        0 <= i < entries.len() ==> end.devices[i] == entry_device(
                            replies[0]->Handle_0.unwrap(),
                            #[trigger] entries[i],
                        )
                }
        }),
{
    let op = ListScan::GetClassDevs;
    let list = CandleList::zero();
    let n = replies.len() as int;
    assert(replies.take(n) =~= replies);
    assert forall|entries: Seq<Seq<Reply>>| #[trigger] search_finds(replies, entries) implies {
        let end = after(op, list, replies).0;
        &&& ok
        &&& end.num_devices == entries.len()
        &&& forall|i: int|
            0 <= i < entries.len() ==> end.devices[i] == entry_device(
                replies[0]->Handle_0.unwrap(),
                #[trigger] entries[i],
            )
    } by {
        search_ends_with_its_entries(replies, n, ok, n, entries);
    }
    if ok {
        completes_by_steps(op, list, replies, ok);
        let (l1, op1) = op.next(list, replies[0]);
        if op1 is Finished {
            completes_by_steps(op1, l1, replies.drop_first(), ok);
        } else {
            assert(untouched_from(list, 0));
            let entries = success_has_entries(class_list(op1), 0, list, replies.drop_first());
            assert(search_finds(replies, entries));
        }
    }
}

/// The numbers of a search.
pub proof fn search_numbers()
    ensures
        CANDLE_GUID == 0xc15b4308_04d3_11e6_b3ea_6057189e6443,
        ERROR_INSUFFICIENT_BUFFER == 122,
        ERROR_NO_MORE_ITEMS == 259,
        CANDLE_MAX_DEVICES == 32,
{
}

/// No unit before the place `j` is zero.
pub open spec fn no_zero_before(units: Seq<u16>, j: int) -> bool {
    forall|i: int| 0 <= i < j ==> #[trigger] units[i] != 0
}

/// The path was copied from `units`: each unit at its place, up to and with the first zero; after
/// that the path is what it was.
pub open spec fn path_is_copied(before: [u16; 256], units: Seq<u16>, path: [u16; 256]) -> bool {
    forall|j: int|
        0 <= j < 256 ==> #[trigger] path[j] == if j < units.len() && no_zero_before(units, j) {
            units[j]
        } else {
            before[j]
        }
}

/// A path is copied unit by unit, up to and with its first zero.
pub proof fn paths_are_copied(before: [u16; 256], units: Seq<u16>)
    ensures
        path_is_copied(before, units, overwritten(before, units, 0)),
{
    overwritten_path(before, units, 0);
    zero_at_is_first(units, 0);
    let path = overwritten(before, units, 0);
    assert forall|j: int| 0 <= j < 256 implies #[trigger] path[j] == if j < units.len()
        && no_zero_before(units, j) {
        units[j]
    } else {
        before[j]
    } by {
        assert(path@[j] == path[j]);
        let z = zero_at(units, 0);
        if j < units.len() {
            if j <= z {
                assert(no_zero_before(units, j));
            } else {
                assert(units[z] == 0);
                assert(!no_zero_before(units, j));
            }
        }
    }
}

/// What reading an entry of which nothing is known does. It asks for the length of the detail, and
/// reads the detail into a buffer of that length; the device then has the path in the detail. It
/// opens the file of that path and its interface. Where that succeeds, the device is available, and
/// the interface and the file that were opened are released; else it is in use.
pub proof fn entry_is_probed(devs: isize, replies: Seq<Reply>)
    requires
        completes(ReadDi::DetailLength { devs }, CandleDevice::zero(), replies, true),
    ensures
        ({
            let op = ReadDi::DetailLength { devs };
            let made = calls(op, CandleDevice::zero(), replies);
            let end = after(op, CandleDevice::zero(), replies).0;
            let units = replies[1]->Path_0.unwrap()@;
            &&& made.len() == replies.len()
            &&& made.len() >= 3
            &&& made[0] == (Request::DetailLength { devs })
            &&& made[1] == (Request::Detail { devs, length: replies[0]->Length_length })
            &&& replies[1]->Path_0 is Some
            &&& path_is_copied(CandleDevice::zero().path, units, end.path)
            &&& made[2] == (Request::CreateFile { path: end.path })
            &&& end.last_error is Success
            &&& end.state is Avail <==> replies.len() >= 11 && opens(replies.subrange(2, 11))
            &&& end.state is Avail ==> {
                &&& made.len() == 13
                &&& forall|i: int|
                    0 <= i < 9 ==> #[trigger] made[2 + i] == opening_call(
                        CandleDevice { path: end.path, ..CandleDevice::zero() },
                        replies.subrange(2, 11),
                        i,
                    )
                &&& made[11] == (Request::FreeInterface { usb: replies[3]->Handle_0.unwrap() })
                &&& made[12] == (Request::CloseHandle { handle: replies[2]->Handle_0.unwrap() })
                &&& end.device_handle == 0
                &&& end.winusb_handle == 0
            }
        }),
{
    let zero = CandleDevice::zero();
    let op0 = ReadDi::DetailLength { devs };
    let made = calls(op0, zero, replies);
    let end = after(op0, zero, replies).0;
    calls_match_replies(op0, zero, replies);
    entry_tells_whether_it_opens(zero, devs, replies);
    completes_by_steps(op0, zero, replies, true);
    let (d1, op1) = op0.next(zero, replies[0]);
    let r1 = replies.drop_first();
    completes_by_steps(op1, d1, r1, true);
    let (d2, op2) = op1.next(d1, r1[0]);
    let r2 = r1.drop_first();
    assert(r1[0] == replies[1]);
    paths_are_copied(zero.path, replies[1]->Path_0.unwrap()@);
    completes_by_steps(op2, d2, r2, true);
    let inner = InternalOpen::CreateFile;
    let (k, b) = probing_phase(inner, d2, r2, true);
    let head = r2.take(k);
    let m2 = calls(op2, d2, r2);
    let mi = calls(inner, d2, head);
    opening_makes_these_calls(d2, head, b);
    assert(forall|i: int| 2 <= i < made.len() ==> #[trigger] made[i] == m2[i - 2]);
    assert(m2[0] == op2.pending(d2).unwrap());
    if b {
        open_succeeds_exactly(d2, head, b);
        open_that_succeeds_releases_nothing(d2, head);
        opened_device_holds_what_was_found(d2, head);
        let d = CandleDevice { state: CandleDevState::Avail, ..after(inner, d2, head).0 };
        closing_makes_these_calls(d, r2.skip(k), true);
        assert(head =~= replies.subrange(2, 11));
        assert forall|i: int| 0 <= i < 9 implies #[trigger] made[2 + i] == opening_call(
            CandleDevice { path: end.path, ..zero },
            replies.subrange(2, 11),
            i,
        ) by {
            assert(made[2 + i] == m2[i]);
            assert(m2[i] == mi[i]);
        }
        let mc = calls(close_from(d, 0), d, r2.skip(k));
        assert(made[11] == m2[9] && m2[9] == mc[0]);
        assert(made[12] == m2[10] && m2[10] == mc[1]);
    }
}

/// The calls that go to an interface, among some calls.
pub open spec fn enumerations(made: Seq<Request>) -> Seq<Request>
    decreases made.len(),
{
    if made.len() == 0 {
        Seq::empty()
    } else {
        let rest = enumerations(made.drop_first());
        if made[0] is EnumInterface {
            seq![made[0]] + rest
        } else {
            rest
        }
    }
}

/// The calls that go to `n` interfaces of a list, one after the other, from the place `from` on.
pub open spec fn in_turn(devs: isize, from: int, n: nat) -> Seq<Request> {
    Seq::new(n, |j: int| Request::EnumInterface { devs, member: (from + j) as u32 })
}

/// Where a search stands: the place of the interface that it goes to next.
pub open spec fn next_place(op: ListScan) -> int {
    match op {
        ListScan::Enumerate { index, .. } => index as int,
        ListScan::Reading { index, .. } => index + 1,
        _ => 32,
    }
}

proof fn search_enumerates(op: ListScan, list: CandleList, replies: Seq<Reply>, ok: bool) -> (n: nat)
    requires
        op.wf(),
        op is Enumerate || op is Reading || op is Destroy,
        completes(op, list, replies, ok),
    ensures
        ({
            let made = calls(op, list, replies);
            &&& enumerations(made) == in_turn(class_list(op), next_place(op), n)
            &&& next_place(op) + n <= 32
            &&& !(op is Destroy) && ok ==> {
                &&& n + next_place(op) > 0
                &&& after(op, list, replies).0.num_devices == next_place(op) + n - 1
            }
        }),
    decreases replies.len(),
{
    completes_by_steps(op, list, replies, ok);
    op.advances(list, replies[0]);
    let (l, o) = op.next(list, replies[0]);
    let rest = replies.drop_first();
    let made = calls(op, list, replies);
    let tail = calls(o, l, rest);
    assert(made.drop_first() =~= tail);
    if op is Destroy {
        completes_by_steps(o, l, rest, ok);
        assert(enumerations(tail) == Seq::<Request>::empty());
        assert(enumerations(made) =~= in_turn(class_list(op), 32, 0));
        0
    } else {
        let n = search_enumerates(o, l, rest, ok);
        if o is Destroy {
            destroy_keeps(class_list(o), o->Destroy_ok, l, rest, ok);
        }
        if op is Enumerate {
            let all = if o is Destroy { 1nat } else { n + 1 };
            assert(enumerations(made) =~= in_turn(class_list(op), next_place(op), all));
            all
        } else {
            assert(!(made[0] is EnumInterface));
            assert(enumerations(made) =~= in_turn(class_list(op), next_place(op), n));
            n
        }
    }
}

/// A search asks for the list of the interfaces of Candle devices, and goes to the interfaces of the
/// list that it got one after the other, from the first on, to each once. Where it succeeds, the one
/// that it went to last is past the devices that it found.
pub proof fn search_goes_through_the_interfaces(replies: Seq<Reply>, ok: bool)
    requires
        completes(ListScan::GetClassDevs, CandleList::zero(), replies, ok),
    ensures
        ({
            let made = calls(ListScan::GetClassDevs, CandleList::zero(), replies);
            let end = after(ListScan::GetClassDevs, CandleList::zero(), replies).0;
            let gone_to = enumerations(made);
            &&& made.len() > 0
            &&& made[0] == (Request::GetClassDevs {
                guid: 0xc15b4308_04d3_11e6_b3ea_6057189e6443,
            })
            &&& gone_to.len() <= 32
            &&& forall|j: int|
                0 <= j < gone_to.len() ==> #[trigger] gone_to[j] == (Request::EnumInterface {
                    devs: replies[0]->Handle_0.unwrap(),
                    member: j as u32,
                })
            &&& ok ==> gone_to.len() == end.num_devices + 1
        }),
{
    let op = ListScan::GetClassDevs;
    let list = CandleList::zero();
    let made = calls(op, list, replies);
    completes_by_steps(op, list, replies, ok);
    let (l, o) = op.next(list, replies[0]);
    let rest = replies.drop_first();
    assert(made.drop_first() =~= calls(o, l, rest));
    if o is Finished {
        completes_by_steps(o, l, rest, ok);
        assert(enumerations(calls(o, l, rest)) == Seq::<Request>::empty());
        assert(enumerations(made) =~= Seq::empty());
    } else {
        let _n = search_enumerates(o, l, rest, ok);
    }
}

proof fn search_error_tail(op: ListScan, list: CandleList, replies: Seq<Reply>, ok: bool)
    requires
        op.wf(),
        op is Enumerate || op is Reading,
        list.last_error is Success,
        completes(op, list, replies, ok),
    ensures
        ({
            let made = calls(op, list, replies);
            let n = made.len() as int;
            let error = after(op, list, replies).0.last_error;
            &&& n == replies.len()
            &&& n >= 2
            &&& search_error_is(made[n - 2], replies[n - 2], ok, error)
        }),
    decreases replies.len(),
{
    let made = calls(op, list, replies);
    calls_match_replies(op, list, replies);
    completes_by_steps(op, list, replies, ok);
    op.advances(list, replies[0]);
    let (l, o) = op.next(list, replies[0]);
    let rest = replies.drop_first();
    let tail = calls(o, l, rest);
    calls_match_replies(o, l, rest);
    let n = made.len() as int;
    if o is Destroy {
        destroy_keeps(class_list(o), o->Destroy_ok, l, rest, ok);
    } else {
        search_error_tail(o, l, rest, ok);
        assert(made[n - 2] == tail[n - 3]);
        assert(replies[n - 2] == rest[n - 3]);
    }
}

/// The result and the last error of a search, by the call before the one that releases its list.
pub open spec fn search_error_is(
    request: Request,
    reply: Reply,
    ok: bool,
    error: CandleErr,
) -> bool {
    match request {
        Request::EnumInterface { .. } => {
            &&& ok <==> reply->Status_last_error == Some(259u32)
            &&& error == if ok {
                CandleErr::Success
            } else {
                CandleErr::SetupDiIfEnum
            }
        },
        Request::DetailLength { .. } => !ok && error == CandleErr::SetupDiIfDetails,
        Request::Detail { .. } => !ok && error == CandleErr::SetupDiIfDetails2,
        _ => !ok && error == CandleErr::Success,
    }
}

/// Why a search ended, and with which error: the list was not got; going to an interface failed,
/// which is success where there are no more; the detail of one could not be read; or all entries
/// were taken.
pub proof fn search_tells_why_it_ended(replies: Seq<Reply>, ok: bool)
    requires
        completes(ListScan::GetClassDevs, CandleList::zero(), replies, ok),
    ensures
        ({
            let made = calls(ListScan::GetClassDevs, CandleList::zero(), replies);
            let error = after(ListScan::GetClassDevs, CandleList::zero(), replies).0.last_error;
            let n = made.len() as int;
            &&& n == replies.len()
            &&& replies[0]->Handle_0 is None ==> !ok && error == CandleErr::GetDevices && n == 1
            &&& replies[0]->Handle_0 is Some ==> {
                &&& n >= 3
                &&& search_error_is(made[n - 2], replies[n - 2], ok, error)
            }
        }),
{
    let op = ListScan::GetClassDevs;
    let list = CandleList::zero();
    let made = calls(op, list, replies);
    calls_match_replies(op, list, replies);
    completes_by_steps(op, list, replies, ok);
    let (l, o) = op.next(list, replies[0]);
    let rest = replies.drop_first();
    if o is Finished {
        completes_by_steps(o, l, rest, ok);
    } else {
        search_error_tail(o, l, rest, ok);
        let n = made.len() as int;
        assert(made[n - 2] == calls(o, l, rest)[n - 3]);
        assert(replies[n - 2] == rest[n - 3]);
    }
}

/// A call that works on a list of interfaces works on that one.
pub open spec fn works_on(request: Request, list: isize) -> bool {
    match request {
        Request::EnumInterface { devs, .. } => devs == list,
        Request::DetailLength { devs } => devs == list,
        Request::Detail { devs, .. } => devs == list,
        Request::DestroyClassDevs { devs } => devs == list,
        _ => true,
    }
}

/// The entry that is being read is one of that list.
spec fn reads_from(op: ListScan, list: isize) -> bool {
    &&& class_list(op) == list
    &&& op matches ListScan::Reading { op: ReadDi::DetailLength { devs }, .. } ==> devs == list
    &&& op matches ListScan::Reading { op: ReadDi::Detail { devs, .. }, .. } ==> devs == list
}

proof fn search_keeps_to_its_list(op: ListScan, list: CandleList, replies: Seq<Reply>, ok: bool)
    requires
        op.wf(),
        op is Enumerate || op is Reading || op is Destroy,
        reads_from(op, class_list(op)),
        completes(op, list, replies, ok),
    ensures
        forall|i: int|
            0 <= i < calls(op, list, replies).len() ==> works_on(
                #[trigger] calls(op, list, replies)[i],
                class_list(op),
            ),
    decreases replies.len(),
{
    completes_by_steps(op, list, replies, ok);
    op.advances(list, replies[0]);
    let (l, o) = op.next(list, replies[0]);
    let rest = replies.drop_first();
    let made = calls(op, list, replies);
    if op is Destroy {
        completes_by_steps(o, l, rest, ok);
    } else {
        assert(reads_from(o, class_list(op)));
        search_keeps_to_its_list(o, l, rest, ok);
        let tail = calls(o, l, rest);
        assert forall|i: int| 0 <= i < made.len() implies works_on(
            #[trigger] made[i],
            class_list(op),
        ) by {
            if i > 0 {
                assert(made[i] == tail[i - 1]);
            }
        }
    }
}

/// Every call of a search that works on a list of interfaces works on the one that it got.
pub proof fn search_works_on_the_list_that_it_got(replies: Seq<Reply>, ok: bool)
    requires
        completes(ListScan::GetClassDevs, CandleList::zero(), replies, ok),
        replies[0]->Handle_0 is Some,
    ensures
        ({
            let made = calls(ListScan::GetClassDevs, CandleList::zero(), replies);
            forall|i: int|
                0 <= i < made.len() ==> works_on(
                    #[trigger] made[i],
                    replies[0]->Handle_0.unwrap(),
                )
        }),
{
    let op = ListScan::GetClassDevs;
    let list = CandleList::zero();
    let made = calls(op, list, replies);
    completes_by_steps(op, list, replies, ok);
    let (l, o) = op.next(list, replies[0]);
    let rest = replies.drop_first();
    search_keeps_to_its_list(o, l, rest, ok);
    let tail = calls(o, l, rest);
    assert forall|i: int| 0 <= i < made.len() implies works_on(
        #[trigger] made[i],
        replies[0]->Handle_0.unwrap(),
    ) by {
        if i > 0 {
            assert(made[i] == tail[i - 1]);
        }
    }
}

} // verus!
