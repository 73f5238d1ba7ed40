//! Listing the devices, and opening a channel of one of them.

use crate::control::{
    bitrate_start, bittiming_msg, candle_channel_set_bitrate, candle_channel_start,
    device_mode_msg, timing_for, Control, CANDLE_CLOCK, CANDLE_DEVMODE_START,
    CANDLE_MODE_HW_TIMESTAMP,
};
use crate::device::{
    candle_dev_free, candle_dev_get, candle_list_length, device_channel_count,
    device_path, entry_is_handed_out, last_error_of, path_ends_at_its_first_zero, path_units,
    utf16_lossy, CandleDevice, CandleList,
    CANDLE_MAX_DEVICES,
};
use crate::error::{CandleErr, CandleError};
use crate::lifecycle::{
    candle_dev_open, device_open_succeeds_exactly, device_opening_ends_with_its_answers,
    device_opening_makes_these_calls, device_opens, opened_device_reads_on_every_buffer, DevOpen,
};
use crate::open::{opened, opening_call, InternalOpen};
use crate::scan::{
    candle_list_scan, entry_device, entry_is_probed, finds_entries, no_zero_before, path_is_copied,
    scan_counts_what_it_read, search_ends_with_its_entries, search_finds, search_succeeds_exactly,
    ListScan, ReadDi,
};
use crate::usb::{
    after, answered, calls, calls_match_replies, completes, completes_by_steps, runs_answer_calls,
    runs_split, Operation, Reply, Request,
};
use crate::wire::{
    read_fields_come_in_order, stands_at, CandleDeviceMode, ControlData, SetupPacket,
};
use vstd::prelude::*;

verus! {

/// Which channel of which device to open, and its bitrate.
#[derive(Debug, Clone, Copy)]
pub struct CandleConfig {
    pub device_index: u8,
    pub channel: u8,
    pub bitrate: u32,
}

/// What is known of a device that was found.
#[derive(Debug, Clone)]
pub struct CandleDeviceInfo {
    pub index: u8,
    pub path: String,
    pub channel_count: u8,
}

impl CandleDeviceInfo {
    /// What is told of the entry `i` of a list. Nothing having been read from the device, it counts
    /// as one channel.
    pub open spec fn describes(self, list: CandleList, i: int) -> bool {
        &&& self.index == i
        &&& self.path@ == utf16_lossy(path_units(list.devices[i].path))
        &&& self.channel_count == 1
    }
}

/// Takes stock of the devices that a search has found; `scanned` is whether it succeeded.
pub fn list_devices(scanned: bool, list: &mut CandleList) -> (r: Result<
    Vec<CandleDeviceInfo>,
    CandleError,
>)
    ensures
        !scanned ==> {
            &&& r == Err::<Vec<CandleDeviceInfo>, CandleError>(
                CandleError::NativeError { code: CandleErr::Unknown, context: "list_scan" },
            )
            &&& *final(list) == *old(list)
        },
        scanned && old(list).num_devices > CANDLE_MAX_DEVICES ==> {
            &&& r == Err::<Vec<CandleDeviceInfo>, CandleError>(
                CandleError::NativeError { code: CandleErr::Unknown, context: "dev_get" },
            )
            &&& *final(list) == (CandleList { last_error: CandleErr::DevOutOfRange, ..*old(list) })
        },
        scanned && old(list).num_devices <= CANDLE_MAX_DEVICES ==> {
            &&& r is Ok
            &&& r->Ok_0@.len() == old(list).num_devices
            &&& forall|i: int|
                0 <= i < old(list).num_devices ==> (#[trigger] r->Ok_0@[i]).describes(*old(list), i)
            &&& *final(list) == if old(list).num_devices == 0 {
                *old(list)
            } else {
                CandleList { last_error: CandleErr::Success, ..*old(list) }
            }
        },
{
    if !scanned {
        return Err(
            CandleError::NativeError { code: CandleErr::Unknown, context: "list_scan" },
        );
    }
    let length = match candle_list_length(Some(&*list)) {
        Some(n) => n,
        None => {
            return Err(
                CandleError::NativeError { code: CandleErr::Unknown, context: "list_length" },
            );
        },
    };
    let ghost before = *list;
    let mut devices: Vec<CandleDeviceInfo> = Vec::with_capacity(length as usize);
    let mut index: u8 = 0;
    while index < length
        invariant
            scanned,
            before == *old(list),
            length == before.num_devices,
            index <= length,
            index <= CANDLE_MAX_DEVICES,
            devices@.len() == index,
            forall|i: int|
                0 <= i < index ==> (#[trigger] devices@[i]).describes(before, i),
            *list == if index == 0 {
                before
            } else {
                CandleList { last_error: CandleErr::Success, ..before }
            },
        decreases length - index,
    {
        let handle = match candle_dev_get(Some(list), index) {
            Some(handle) => handle,
            None => {
                return Err(
                    CandleError::NativeError { code: CandleErr::Unknown, context: "dev_get" },
                );
            },
        };
        let path = match device_path(Some(&handle)) {
            Some(path) => path,
            None => String::new(),
        };
        let channel_count = match device_channel_count(Some(&handle)) {
            Some(n) => n,
            None => 0,
        };
        devices.push(CandleDeviceInfo { index, path, channel_count });
        let _ = candle_dev_free(Some(handle));
        index += 1;
    }
    Ok(devices)
}

/// What the opening of a device works on.
#[derive(Debug, Clone, Copy)]
pub struct Session {
    pub list: CandleList,
    pub device: CandleDevice,
}

/// The opening of a device by its place in the list.
#[derive(Debug, Clone, Copy)]
pub enum OpenDevice {
    /// The devices are being searched for.
    Scanning { index: u8, op: ListScan },
    /// The device is being opened.
    Opening(DevOpen),
    Finished { result: Result<(), CandleError> },
}

/// A call failed.
pub open spec fn native(code: CandleErr, context: &'static str) -> Result<(), CandleError> {
    Err(CandleError::NativeError { code, context })
}

/// What follows a search that found its devices.
pub open spec fn pick_device(session: Session, index: u8) -> (Session, OpenDevice) {
    if index >= session.list.num_devices {
        (
            session,
            OpenDevice::Finished { result: Err(CandleError::InvalidDeviceIndex(index)) },
        )
    } else if index >= CANDLE_MAX_DEVICES {
        (
            Session {
                list: CandleList { last_error: CandleErr::DevOutOfRange, ..session.list },
                ..session
            },
            OpenDevice::Finished { result: native(CandleErr::Unknown, "dev_get") },
        )
    } else {
        (
            Session {
                list: CandleList { last_error: CandleErr::Success, ..session.list },
                device: session.list.handed_out(index as int),
            },
            OpenDevice::Opening(DevOpen::Opening(InternalOpen::CreateFile)),
        )
    }
}

/// Takes the device at a place of the list that a search has found.
fn take_device(session: &mut Session, index: u8) -> (op: OpenDevice)
    ensures
        (*final(session), op) == pick_device(*old(session), index),
        op.wf(),
{
    let length = match candle_list_length(Some(&session.list)) {
        Some(n) => n,
        None => {
            return OpenDevice::Finished {
                result: Err(
                    CandleError::NativeError { code: CandleErr::Unknown, context: "list_length" },
                ),
            };
        },
    };
    if index >= length {
        return OpenDevice::Finished { result: Err(CandleError::InvalidDeviceIndex(index)) };
    }
    match candle_dev_get(Some(&mut session.list), index) {
        Some(device) => {
            session.device = device;
            OpenDevice::Opening(candle_dev_open(Some(&session.device)))
        },
        None => OpenDevice::Finished {
            result: Err(
                CandleError::NativeError { code: CandleErr::Unknown, context: "dev_get" },
            ),
        },
    }
}

/// Starts to open the device at a place of the list: what it works on, and the opening.
pub fn open_device(index: u8) -> (r: (Session, OpenDevice))
    ensures
        r.0 == (Session { list: CandleList::zero(), device: CandleDevice::zero() }),
        r.1 == (OpenDevice::Scanning { index, op: ListScan::GetClassDevs }),
        r.1.wf(),
{
    let (list, op) = candle_list_scan();
    (Session { list, device: CandleDevice::default() }, OpenDevice::Scanning { index, op })
}

impl Operation for OpenDevice {
    type State = Session;

    open spec fn wf(self) -> bool {
        match self {
            OpenDevice::Scanning { op, .. } => op.wf() && !(op is Finished),
            OpenDevice::Opening(op) => op.wf() && !(op is Finished),
            OpenDevice::Finished { .. } => true,
        }
    }

    open spec fn pending(self, session: Session) -> Option<Request> {
        match self {
            OpenDevice::Scanning { op, .. } => op.pending(session.list),
            OpenDevice::Opening(op) => op.pending(session.device),
            OpenDevice::Finished { .. } => None,
        }
    }

    open spec fn next(self, session: Session, reply: Reply) -> (Session, Self) {
        match self {
            OpenDevice::Scanning { index, op } => {
                let (l, o) = op.next(session.list, reply);
                let s = Session { list: l, ..session };
                match o.result() {
                    None => (s, OpenDevice::Scanning { index, op: o }),
                    Some(true) => pick_device(s, index),
                    Some(false) => (
                        s,
                        OpenDevice::Finished { result: native(CandleErr::Unknown, "list_scan") },
                    ),
                }
            },
            OpenDevice::Opening(op) => {
                let (d, o) = op.next(session.device, reply);
                let s = Session { device: d, ..session };
                match o.result() {
                    None => (s, OpenDevice::Opening(o)),
                    Some(true) => (s, OpenDevice::Finished { result: Ok(()) }),
                    Some(false) => (
                        s,
                        OpenDevice::Finished { result: native(d.last_error, "dev_open") },
                    ),
                }
            },
            OpenDevice::Finished { .. } => (session, self),
        }
    }

    open spec fn result(self) -> Option<bool> {
        match self {
            OpenDevice::Finished { result } => Some(result is Ok),
            _ => None,
        }
    }

    open spec fn calls_left(self) -> nat {
        match self {
            OpenDevice::Scanning { op, .. } => 355 + op.calls_left(),
            OpenDevice::Opening(op) => op.calls_left(),
            OpenDevice::Finished { .. } => 0,
        }
    }

    proof fn calls_until_the_end(self, session: Session) {
        match self {
            OpenDevice::Scanning { op, .. } => {
                op.calls_until_the_end(session.list);
            },
            OpenDevice::Opening(op) => {
                op.calls_until_the_end(session.device);
            },
            _ => {},
        }
    }

    proof fn advances(self, session: Session, reply: Reply) {
        match self {
            OpenDevice::Scanning { op, .. } => {
                op.advances(session.list, reply);
            },
            OpenDevice::Opening(op) => {
                op.advances(session.device, reply);
            },
            _ => {},
        }
    }

    fn request(self, session: &Session) -> (request: Option<Request>) {
        match self {
            OpenDevice::Scanning { op, .. } => op.request(&session.list),
            OpenDevice::Opening(op) => op.request(&session.device),
            OpenDevice::Finished { .. } => None,
        }
    }

    fn step(self, session: &mut Session, reply: &Reply) -> (op: Self) {
        match self {
            OpenDevice::Scanning { index, op } => {
                let op = op.step(&mut session.list, reply);
                match op.outcome() {
                    None => OpenDevice::Scanning { index, op },
                    Some(ok) => {
                        if ok {
                            take_device(session, index)
                        } else {
                            OpenDevice::Finished {
                                result: Err(
                                    CandleError::NativeError {
                                        code: CandleErr::Unknown,
                                        context: "list_scan",
                                    },
                                ),
                            }
                        }
                    },
                }
            },
            OpenDevice::Opening(op) => {
                let op = op.step(&mut session.device, reply);
                match op.outcome() {
                    None => OpenDevice::Opening(op),
                    Some(ok) => {
                        if ok {
                            OpenDevice::Finished { result: Ok(()) }
                        } else {
                            let code = last_error_of(Some(&session.device));
                            OpenDevice::Finished {
                                result: Err(
                                    CandleError::NativeError { code, context: "dev_open" },
                                ),
                            }
                        }
                    },
                }
            },
            OpenDevice::Finished { .. } => self,
        }
    }

    fn outcome(self) -> (ok: Option<bool>) {
        match self {
            OpenDevice::Finished { result } => Some(result.is_ok()),
            _ => None,
        }
    }
}

/// The opening of a channel.
#[derive(Debug, Clone, Copy)]
pub enum OpenCandle {
    /// The device is being opened.
    Device { config: CandleConfig, device: OpenDevice },
    /// The bitrate is being set.
    Bitrate { config: CandleConfig, op: Control },
    /// The channel is being started.
    Start { op: Control },
    Finished { result: Result<(), CandleError> },
}

/// What follows once the device is open.
pub open spec fn channel_setup(session: Session, config: CandleConfig) -> (Session, OpenCandle) {
    if config.channel >= session.device.channels() {
        (
            session,
            OpenCandle::Finished { result: Err(CandleError::InvalidChannel(config.channel)) },
        )
    } else {
        let (d, o) = bitrate_start(session.device, config.channel, config.bitrate);
        if o is Refused {
            (
                Session { device: d, ..session },
                OpenCandle::Finished { result: native(d.last_error, "channel_set_bitrate") },
            )
        } else {
            (Session { device: d, ..session }, OpenCandle::Bitrate { config, op: o })
        }
    }
}

fn set_up_channel(session: &mut Session, config: CandleConfig) -> (op: OpenCandle)
    ensures
        (*final(session), op) == channel_setup(*old(session), config),
        op.wf(),
{
    let channel_count = match device_channel_count(Some(&session.device)) {
        Some(n) => n,
        None => 0,
    };
    if config.channel >= channel_count {
        return OpenCandle::Finished { result: Err(CandleError::InvalidChannel(config.channel)) };
    }
    let op = candle_channel_set_bitrate(
        Some(&mut session.device),
        config.channel,
        config.bitrate,
    );
    match op {
        Control::Refused => {
            let code = last_error_of(Some(&session.device));
            OpenCandle::Finished {
                result: Err(
                    CandleError::NativeError { code, context: "channel_set_bitrate" },
                ),
            }
        },
        _ => OpenCandle::Bitrate { config, op },
    }
}

/// Starts to open a channel: what it works on, and the opening.
pub fn open_candle(config: CandleConfig) -> (r: (Session, OpenCandle))
    ensures
        r.0 == (Session { list: CandleList::zero(), device: CandleDevice::zero() }),
        r.1 == (OpenCandle::Device {
            config,
            device: OpenDevice::Scanning { index: config.device_index, op: ListScan::GetClassDevs },
        }),
        r.1.wf(),
{
    let (session, device) = open_device(config.device_index);
    (session, OpenCandle::Device { config, device })
}

impl OpenCandle {
    /// The error that ended the opening, if one did.
    pub fn error(&self) -> (e: Option<CandleError>)
        ensures
            e == match *self {
                OpenCandle::Finished { result: Err(e) } => Some(e),
                _ => None,
            },
    {
        match self {
            OpenCandle::Finished { result: Err(e) } => Some(*e),
            _ => None,
        }
    }
}

impl Operation for OpenCandle {
    type State = Session;

    open spec fn wf(self) -> bool {
        match self {
            OpenCandle::Device { device, .. } => device.wf() && !(device is Finished),
            OpenCandle::Bitrate { op, .. } => op.wf() && op is Pending,
            OpenCandle::Start { op } => op.wf() && op is Pending,
            OpenCandle::Finished { .. } => true,
        }
    }

    open spec fn pending(self, session: Session) -> Option<Request> {
        match self {
            OpenCandle::Device { device, .. } => device.pending(session),
            OpenCandle::Bitrate { op, .. } => op.pending(session.device),
            OpenCandle::Start { op } => op.pending(session.device),
            OpenCandle::Finished { .. } => None,
        }
    }

    open spec fn next(self, session: Session, reply: Reply) -> (Session, Self) {
        match self {
            OpenCandle::Device { config, device } => {
                let (s, o) = device.next(session, reply);
                match o {
                    OpenDevice::Finished { result: Ok(_) } => channel_setup(s, config),
                    OpenDevice::Finished { result: Err(e) } => (
                        s,
                        OpenCandle::Finished { result: Err(e) },
                    ),
                    _ => (s, OpenCandle::Device { config, device: o }),
                }
            },
            OpenCandle::Bitrate { config, op } => {
                let (d, o) = op.next(session.device, reply);
                let s = Session { device: d, ..session };
                if o.result() == Some(true) {
                    (
                        s,
                        OpenCandle::Start {
                            op: device_mode_msg(
                                d,
                                config.channel,
                                CANDLE_DEVMODE_START,
                                0u32 | CANDLE_MODE_HW_TIMESTAMP,
                            ),
                        },
                    )
                } else {
                    (
                        s,
                        OpenCandle::Finished {
                            result: native(d.last_error, "channel_set_bitrate"),
                        },
                    )
                }
            },
            OpenCandle::Start { op } => {
                let (d, o) = op.next(session.device, reply);
                let s = Session { device: d, ..session };
                if o.result() == Some(true) {
                    (s, OpenCandle::Finished { result: Ok(()) })
                } else {
                    (s, OpenCandle::Finished { result: native(d.last_error, "channel_start") })
                }
            },
            OpenCandle::Finished { .. } => (session, self),
        }
    }

    open spec fn result(self) -> Option<bool> {
        match self {
            OpenCandle::Finished { result } => Some(result is Ok),
            _ => None,
        }
    }

    open spec fn calls_left(self) -> nat {
        match self {
            OpenCandle::Device { device, .. } => 2 + device.calls_left(),
            OpenCandle::Bitrate { .. } => 2,
            OpenCandle::Start { .. } => 1,
            OpenCandle::Finished { .. } => 0,
        }
    }

    proof fn calls_until_the_end(self, session: Session) {
        if let OpenCandle::Device { device, .. } = self {
            device.calls_until_the_end(session);
        }
    }

    proof fn advances(self, session: Session, reply: Reply) {
        if let OpenCandle::Device { device, .. } = self {
            device.advances(session, reply);
        }
    }

    fn request(self, session: &Session) -> (request: Option<Request>) {
        match self {
            OpenCandle::Device { device, .. } => device.request(session),
            OpenCandle::Bitrate { op, .. } => op.request(&session.device),
            OpenCandle::Start { op } => op.request(&session.device),
            OpenCandle::Finished { .. } => None,
        }
    }

    fn step(self, session: &mut Session, reply: &Reply) -> (op: Self) {
        match self {
            OpenCandle::Device { config, device } => {
                let device = device.step(session, reply);
                match device {
                    OpenDevice::Finished { result: Ok(_) } => set_up_channel(session, config),
                    OpenDevice::Finished { result: Err(e) } => OpenCandle::Finished {
                        result: Err(e),
                    },
                    _ => OpenCandle::Device { config, device },
                }
            },
            OpenCandle::Bitrate { config, op } => {
                let op = op.step(&mut session.device, reply);
                if let Some(true) = op.outcome() {
                    OpenCandle::Start {
                        op: candle_channel_start(Some(&session.device), config.channel, 0),
                    }
                } else {
                    let code = last_error_of(Some(&session.device));
                    OpenCandle::Finished {
                        result: Err(
                            CandleError::NativeError { code, context: "channel_set_bitrate" },
                        ),
                    }
                }
            },
            OpenCandle::Start { op } => {
                let op = op.step(&mut session.device, reply);
                if let Some(true) = op.outcome() {
                    OpenCandle::Finished { result: Ok(()) }
                } else {
                    let code = last_error_of(Some(&session.device));
                    OpenCandle::Finished {
                        result: Err(CandleError::NativeError { code, context: "channel_start" }),
                    }
                }
            },
            OpenCandle::Finished { .. } => self,
        }
    }

    fn outcome(self) -> (ok: Option<bool>) {
        match self {
            OpenCandle::Finished { result } => Some(result.is_ok()),
            _ => None,
        }
    }
}

/// A channel that opens is one of the device, at a bitrate that is supported, and its last two
/// calls set the bit timing for that rate and start the channel.
#[verifier::spinoff_prover]
#[verifier::rlimit(30)]
pub proof fn open_channel_is_set_up(
    op: OpenCandle,
    session: Session,
    config: CandleConfig,
    replies: Seq<Reply>,
)
    requires
        op.wf(),
        op is Device && op->Device_config == config,
        completes(op, session, replies, true),
    ensures
        ({
            let end = after(op, session, replies).0.device;
            let made = calls(op, session, replies);
            let n = made.len() as int;
            &&& config.channel < end.channels()
            &&& end.bt_const.fclk_can == CANDLE_CLOCK
            &&& timing_for(config.bitrate) is Some
            &&& end.last_error == CandleErr::Success
            &&& n >= 2
            &&& Some(made[n - 2]) == bittiming_msg(
                end,
                config.channel,
                timing_for(config.bitrate).unwrap(),
            ).pending(end)
            &&& Some(made[n - 1]) == device_mode_msg(
                end,
                config.channel,
                CANDLE_DEVMODE_START,
                0u32 | CANDLE_MODE_HW_TIMESTAMP,
            ).pending(end)
        }),
    decreases replies.len(),
{
    completes_by_steps(op, session, replies, true);
    op.advances(session, replies[0]);
    let (s1, op1) = op.next(session, replies[0]);
    let r1 = replies.drop_first();
    completes_by_steps(op1, s1, r1, true);
    let made = calls(op, session, replies);
    let tail = calls(op1, s1, r1);
    if op1 is Device {
        open_channel_is_set_up(op1, s1, config, r1);
    } else {
        let (s2, op2) = op1.next(s1, r1[0]);
        let r2 = r1.drop_first();
        completes_by_steps(op2, s2, r2, true);
        let (s3, op3) = op2.next(s2, r2[0]);
        completes_by_steps(op3, s3, r2.drop_first(), true);
    }
}

/// The device is one whose channel can be set up as asked for.
pub open spec fn can_set_up(dev: CandleDevice, config: CandleConfig) -> bool {
    &&& config.channel < dev.channels()
    &&& dev.bt_const.fclk_can == CANDLE_CLOCK
    &&& timing_for(config.bitrate) is Some
}

/// Where the opening of a channel stands once the search has ended.
pub open spec fn after_search(session: Session, config: CandleConfig, found: bool) -> (
    Session,
    OpenCandle,
) {
    if found {
        let (s, device) = pick_device(session, config.device_index);
        match device {
            OpenDevice::Finished { result: Err(e) } => (
                s,
                OpenCandle::Finished { result: Err(e) },
            ),
            _ => (s, OpenCandle::Device { config, device }),
        }
    } else {
        (session, OpenCandle::Finished { result: native(CandleErr::Unknown, "list_scan") })
    }
}

/// Where the opening of a channel stands once the opening of the device has ended.
pub open spec fn after_opening(session: Session, config: CandleConfig, opened: bool) -> (
    Session,
    OpenCandle,
) {
    if opened {
        channel_setup(session, config)
    } else {
        (
            session,
            OpenCandle::Finished { result: native(session.device.last_error, "dev_open") },
        )
    }
}

/// The opening of a channel while it searches.
pub open spec fn searching(config: CandleConfig, op: ListScan) -> OpenCandle {
    OpenCandle::Device {
        config,
        device: OpenDevice::Scanning { index: config.device_index, op },
    }
}

/// The opening of a channel while it opens the device.
pub open spec fn opening(config: CandleConfig, op: DevOpen) -> OpenCandle {
    OpenCandle::Device { config, device: OpenDevice::Opening(op) }
}

/// The replies of a search take the opening of a channel past the search.
proof fn search_lifts(
    config: CandleConfig,
    op: ListScan,
    session: Session,
    replies: Seq<Reply>,
    found: bool,
)
    requires
        op.wf(),
        !(op is Finished),
        completes(op, session.list, replies, found),
    ensures
        answered(searching(config, op), session, replies),
        after(searching(config, op), session, replies) == after_search(
            Session { list: after(op, session.list, replies).0, ..session },
            config,
            found,
        ),
        calls(searching(config, op), session, replies) == calls(op, session.list, replies),
    decreases replies.len(),
{
    let outer = searching(config, op);
    completes_by_steps(op, session.list, replies, found);
    op.advances(session.list, replies[0]);
    let (l1, op1) = op.next(session.list, replies[0]);
    let rest = replies.drop_first();
    completes_by_steps(op1, l1, rest, found);
    let (s1, outer1) = outer.next(session, replies[0]);
    if op1 is Finished {
        op1.calls_until_the_end(l1);
        assert(rest.len() == 0);
        assert(answered(outer1, s1, rest));
        assert(after(outer1, s1, rest) == (s1, outer1));
        assert(calls(outer1, s1, rest) == calls(op1, l1, rest));
    } else {
        search_lifts(config, op1, s1, rest, found);
    }
}

/// The search comes to its end within the opening of a channel that does.
proof fn search_ends(
    config: CandleConfig,
    op: ListScan,
    session: Session,
    replies: Seq<Reply>,
    ok: bool,
) -> (r: (int, bool))
    requires
        op.wf(),
        !(op is Finished),
        completes(searching(config, op), session, replies, ok),
    ensures
        0 <= r.0 <= replies.len(),
        completes(op, session.list, replies.take(r.0), r.1),
    decreases replies.len(),
{
    let outer = searching(config, op);
    completes_by_steps(outer, session, replies, ok);
    op.advances(session.list, replies[0]);
    let (l1, op1) = op.next(session.list, replies[0]);
    let rest = replies.drop_first();
    if op1 is Finished {
        let one = replies.take(1);
        assert(one.drop_first() =~= Seq::empty());
        reveal_with_fuel(after, 2);
        reveal_with_fuel(answered, 2);
        (1, op1->Finished_ok)
    } else {
        let (k, b) = search_ends(config, op1, outer.next(session, replies[0]).0, rest, ok);
        assert(replies.take(k + 1).drop_first() =~= rest.take(k));
        (k + 1, b)
    }
}

/// The replies that open the device take the opening of a channel past that.
proof fn opening_lifts(
    config: CandleConfig,
    op: DevOpen,
    session: Session,
    replies: Seq<Reply>,
    opened: bool,
)
    requires
        op.wf(),
        !(op is Finished),
        completes(op, session.device, replies, opened),
    ensures
        answered(opening(config, op), session, replies),
        after(opening(config, op), session, replies) == after_opening(
            Session { device: after(op, session.device, replies).0, ..session },
            config,
            opened,
        ),
        calls(opening(config, op), session, replies) == calls(op, session.device, replies),
    decreases replies.len(),
{
    let outer = opening(config, op);
    completes_by_steps(op, session.device, replies, opened);
    op.advances(session.device, replies[0]);
    let (d1, op1) = op.next(session.device, replies[0]);
    let rest = replies.drop_first();
    completes_by_steps(op1, d1, rest, opened);
    let (s1, outer1) = outer.next(session, replies[0]);
    if op1 is Finished {
        op1.calls_until_the_end(d1);
        assert(rest.len() == 0);
        assert(answered(outer1, s1, rest));
        assert(after(outer1, s1, rest) == (s1, outer1));
        assert(calls(outer1, s1, rest) == calls(op1, d1, rest));
    } else {
        opening_lifts(config, op1, s1, rest, opened);
    }
}

/// The opening of the device comes to its end within the opening of a channel that does.
proof fn opening_ends(
    config: CandleConfig,
    op: DevOpen,
    session: Session,
    replies: Seq<Reply>,
    ok: bool,
) -> (r: (int, bool))
    requires
        op.wf(),
        !(op is Finished),
        completes(opening(config, op), session, replies, ok),
    ensures
        0 <= r.0 <= replies.len(),
        completes(op, session.device, replies.take(r.0), r.1),
    decreases replies.len(),
{
    let outer = opening(config, op);
    completes_by_steps(outer, session, replies, ok);
    op.advances(session.device, replies[0]);
    let (d1, op1) = op.next(session.device, replies[0]);
    let rest = replies.drop_first();
    if op1 is Finished {
        let one = replies.take(1);
        assert(one.drop_first() =~= Seq::empty());
        reveal_with_fuel(after, 2);
        reveal_with_fuel(answered, 2);
        (1, op1->ok)
    } else {
        let (k, b) = opening_ends(config, op1, outer.next(session, replies[0]).0, rest, ok);
        assert(replies.take(k + 1).drop_first() =~= rest.take(k));
        (k + 1, b)
    }
}

/// From where the device is open, a channel opens exactly where it can be set up and both transfers
/// succeed.
proof fn setup_succeeds_exactly(
    config: CandleConfig,
    session: Session,
    replies: Seq<Reply>,
    ok: bool,
)
    requires
        completes(
            channel_setup(session, config).1,
            channel_setup(session, config).0,
            replies,
            ok,
        ),
    ensures
        ok <==> {
            &&& can_set_up(session.device, config)
            &&& replies.len() == 2
            &&& replies[0]->Transfer_ok
            &&& replies[1]->Transfer_ok
        },
{
    let (s0, op0) = channel_setup(session, config);
    completes_by_steps(op0, s0, replies, ok);
    if op0 is Bitrate {
        let (s1, op1) = op0.next(s0, replies[0]);
        let r1 = replies.drop_first();
        completes_by_steps(op1, s1, r1, ok);
        if op1 is Start {
            let (s2, op2) = op1.next(s1, r1[0]);
            assert(r1[0] == replies[1]);
            completes_by_steps(op2, s2, r1.drop_first(), ok);
        }
    }
}

/// The answers with which a channel opens once its device was found.
pub open spec fn found_channel_opens(config: CandleConfig, replies: Seq<Reply>) -> bool {
    &&& replies.len() == 71
    &&& device_opens(replies.take(69))
    &&& can_set_up(opened(CandleDevice::zero(), replies.take(9)), config)
    &&& replies[69]->Transfer_ok
    &&& replies[70]->Transfer_ok
}

/// From where the device was found, a channel opens exactly with those answers.
proof fn found_channel_opens_exactly(
    config: CandleConfig,
    session: Session,
    replies: Seq<Reply>,
    ok: bool,
)
    requires
        completes(
            opening(config, DevOpen::Opening(InternalOpen::CreateFile)),
            session,
            replies,
            ok,
        ),
    ensures
        ok <==> found_channel_opens(config, replies),
{
    let dev_open = DevOpen::Opening(InternalOpen::CreateFile);
    let op = opening(config, dev_open);
    let (n, b) = opening_ends(config, dev_open, session, replies, ok);
    let head = replies.take(n);
    let tail = replies.skip(n);
    opening_lifts(config, dev_open, session, head, b);
    runs_split(op, session, replies, n);
    let (s1, op1) = after(op, session, head);
    assert(completes(op1, s1, tail, ok));
    if b {
        let dev = after(dev_open, session.device, head).0;
        device_open_succeeds_exactly(session.device, head, b);
        opened_device_reads_on_every_buffer(session.device, head);
        setup_succeeds_exactly(config, Session { device: dev, ..session }, tail, ok);
        assert(head.take(9) =~= replies.take(9));
        assert(tail.len() == 2 ==> tail[0] == replies[69] && tail[1] == replies[70]);
        assert(can_set_up(dev, config) == can_set_up(
            opened(CandleDevice::zero(), replies.take(9)),
            config,
        ));
    } else {
        completes_by_steps(op1, s1, tail, ok);
        if found_channel_opens(config, replies) {
            device_opening_ends_with_its_answers(session.device, replies, n, b);
        }
    }
}

/// The answers with which a channel opens: the first `m` are those of a search that finds the
/// `entries`, the device asked for among them; then come those with which the device opens, which
/// has the channel asked for and the known clock, the bitrate being supported; and then success of
/// the two transfers that set the bit timing and start the channel.
pub open spec fn channel_opens(
    config: CandleConfig,
    replies: Seq<Reply>,
    m: int,
    entries: Seq<Seq<Reply>>,
) -> bool {
    &&& 0 <= m <= replies.len()
    &&& search_finds(replies.take(m), entries)
    &&& config.device_index < entries.len()
    &&& found_channel_opens(config, replies.skip(m))
}

/// A channel opens exactly with the answers that `channel_opens` describes.
pub proof fn channel_opens_exactly(config: CandleConfig, replies: Seq<Reply>, ok: bool)
    requires
        completes(
            searching(config, ListScan::GetClassDevs),
            Session { list: CandleList::zero(), device: CandleDevice::zero() },
            replies,
            ok,
        ),
    ensures
        ok <==> exists|m: int, entries: Seq<Seq<Reply>>|
            channel_opens(config, replies, m, entries),
{
    let session = Session { list: CandleList::zero(), device: CandleDevice::zero() };
    let scan = ListScan::GetClassDevs;
    let start = searching(config, scan);
    let (m, found) = search_ends(config, scan, session, replies, ok);
    let head = replies.take(m);
    let rest = replies.skip(m);
    search_succeeds_exactly(head, found);
    search_lifts(config, scan, session, head, found);
    runs_split(start, session, replies, m);
    let list = after(scan, session.list, head).0;
    let (s1, op1) = after(start, session, head);
    assert(completes(op1, s1, rest, ok));
    let picked = found && config.device_index < list.num_devices;
    assert(ok <==> picked && found_channel_opens(config, rest)) by {
        if picked {
            scan_counts_what_it_read(head, found);
            assert(op1 == opening(config, DevOpen::Opening(InternalOpen::CreateFile)));
            found_channel_opens_exactly(config, s1, rest, ok);
        } else {
            assert(op1 is Finished);
            completes_by_steps(op1, s1, rest, ok);
        }
    }
    if ok {
        let entries = choose|entries: Seq<Seq<Reply>>| search_finds(head, entries);
        assert(channel_opens(config, replies, m, entries));
    }
    assert forall|i: int, entries: Seq<Seq<Reply>>| #[trigger]
        channel_opens(config, replies, i, entries) implies ok by {
        search_ends_with_its_entries(replies, m, found, i, entries);
    }
}

/// No first part of the replies is that of a search that finds its devices.
pub open spec fn search_fails(replies: Seq<Reply>) -> bool {
    forall|m: int, entries: Seq<Seq<Reply>>|
        0 <= m <= replies.len() ==> !#[trigger] search_finds(replies.take(m), entries)
}

/// The first `m` replies are those of a search that finds the `entries`, the device asked for among
/// them.
pub open spec fn device_found(
    config: CandleConfig,
    replies: Seq<Reply>,
    m: int,
    entries: Seq<Seq<Reply>>,
) -> bool {
    &&& 0 <= m <= replies.len()
    &&& search_finds(replies.take(m), entries)
    &&& config.device_index < entries.len()
}

/// The replies start with those with which a device opens.
pub open spec fn device_opens_first(replies: Seq<Reply>) -> bool {
    replies.len() >= 69 && device_opens(replies.take(69))
}

/// The device was opened with the first replies, and holds what they say of it.
pub open spec fn opened_as(dev: CandleDevice, replies: Seq<Reply>) -> bool {
    let found = opened(CandleDevice::zero(), replies.take(9));
    &&& device_opens_first(replies)
    &&& dev.dconf == found.dconf
    &&& dev.bt_const == found.bt_const
}

/// The error is that of the device not opening, and it did not open.
pub open spec fn not_opened(e: CandleError, dev: CandleDevice, replies: Seq<Reply>) -> bool {
    &&& e == (CandleError::NativeError { code: dev.last_error, context: "dev_open" })
    &&& !device_opens_first(replies)
}

/// The error is one of setting up the channel, and that went wrong as it says: the device opened,
/// and does not have the channel; or it does, and the bitrate was refused or the transfer of the
/// bit timing failed; or that went well, and the transfer that starts the channel failed.
pub open spec fn not_set_up(
    e: CandleError,
    dev: CandleDevice,
    config: CandleConfig,
    replies: Seq<Reply>,
) -> bool {
    &&& opened_as(dev, replies)
    &&& match e {
        CandleError::InvalidChannel(c) => {
            &&& c == config.channel
            &&& c >= dev.channels()
            &&& replies.len() == 69
        },
        CandleError::NativeError { code, context } => {
            &&& code == dev.last_error
            &&& config.channel < dev.channels()
            &&& {
                ||| {
                    &&& context == "channel_set_bitrate"
                    &&& dev.bt_const.fclk_can != CANDLE_CLOCK
                    &&& code == CandleErr::BitrateFclk
                    &&& replies.len() == 69
                }
                ||| {
                    &&& context == "channel_set_bitrate"
                    &&& dev.bt_const.fclk_can == CANDLE_CLOCK
                    &&& timing_for(config.bitrate) is None
                    &&& code == CandleErr::BitrateUnsupported
                    &&& replies.len() == 69
                }
                ||| {
                    &&& context == "channel_set_bitrate"
                    &&& can_set_up(dev, config)
                    &&& code == CandleErr::SetBittiming
                    &&& replies.len() == 70
                    &&& !replies[69]->Transfer_ok
                }
                ||| {
                    &&& context == "channel_start"
                    &&& can_set_up(dev, config)
                    &&& code == CandleErr::SetDeviceMode
                    &&& replies.len() == 71
                    &&& replies[69]->Transfer_ok
                    &&& !replies[70]->Transfer_ok
                }
            }
        },
        _ => false,
    }
}

/// What went wrong once the device was found is what the error says.
pub open spec fn ended_after_search(
    e: CandleError,
    end: Session,
    config: CandleConfig,
    replies: Seq<Reply>,
    m: int,
    entries: Seq<Seq<Reply>>,
) -> bool {
    &&& device_found(config, replies, m, entries)
    &&& end.list.num_devices == entries.len()
    &&& not_opened(e, end.device, replies.skip(m)) || not_set_up(
        e,
        end.device,
        config,
        replies.skip(m),
    )
}

/// The error that ended the opening of a channel is true: the search failed; or it succeeded and
/// the index asked for is past the devices that it found; or the device was found, and what went
/// wrong with it is what the error says.
pub open spec fn ended_truly(
    e: CandleError,
    end: Session,
    config: CandleConfig,
    replies: Seq<Reply>,
) -> bool {
    ||| {
        &&& e == (CandleError::NativeError { code: CandleErr::Unknown, context: "list_scan" })
        &&& search_fails(replies)
    }
    ||| {
        &&& e == CandleError::InvalidDeviceIndex(config.device_index)
        &&& config.device_index >= end.list.num_devices
        &&& exists|entries: Seq<Seq<Reply>>| #[trigger]
            search_finds(replies, entries) && end.list.num_devices == entries.len()
    }
    ||| exists|m: int, entries: Seq<Seq<Reply>>|
        ended_after_search(e, end, config, replies, m, entries)
}

/// The setting up of a channel ends with an error that is true. `head` are the replies that opened
/// the device.
proof fn setup_ends_truly(
    config: CandleConfig,
    session: Session,
    head: Seq<Reply>,
    replies: Seq<Reply>,
    ok: bool,
)
    requires
        head.len() == 69,
        opened_as(session.device, head),
        completes(
            channel_setup(session, config).1,
            channel_setup(session, config).0,
            replies,
            ok,
        ),
    ensures
        ({
            let (s0, op0) = channel_setup(session, config);
            let (end, last) = after(op0, s0, replies);
            &&& end.list == session.list
            &&& match last {
                OpenCandle::Finished { result: Ok(_) } => ok && can_set_up(end.device, config),
                OpenCandle::Finished { result: Err(e) } => {
                    !ok && not_set_up(e, end.device, config, head + replies)
                },
                _ => false,
            }
        }),
{
    let (s0, op0) = channel_setup(session, config);
    let all = head + replies;
    assert(all.take(69) =~= head.take(69));
    assert(all.take(9) =~= head.take(9));
    completes_by_steps(op0, s0, replies, ok);
    if op0 is Bitrate {
        assert(all[69] == replies[0]);
        let (s1, op1) = op0.next(s0, replies[0]);
        let r1 = replies.drop_first();
        completes_by_steps(op1, s1, r1, ok);
        if op1 is Start {
            assert(r1[0] == replies[1] && all[70] == replies[1]);
            let (s2, op2) = op1.next(s1, r1[0]);
            completes_by_steps(op2, s2, r1.drop_first(), ok);
        }
    }
}

/// From where the device was found, the opening of a channel ends with an error that is true.
proof fn found_channel_ends_truly(
    config: CandleConfig,
    session: Session,
    replies: Seq<Reply>,
    ok: bool,
)
    requires
        completes(
            opening(config, DevOpen::Opening(InternalOpen::CreateFile)),
            session,
            replies,
            ok,
        ),
    ensures
        ({
            let op = opening(config, DevOpen::Opening(InternalOpen::CreateFile));
            let (end, last) = after(op, session, replies);
            &&& end.list == session.list
            &&& match last {
                OpenCandle::Finished { result: Ok(_) } => ok && can_set_up(end.device, config),
                OpenCandle::Finished { result: Err(e) } => {
                    &&& !ok
                    &&& not_opened(e, end.device, replies) || not_set_up(
                        e,
                        end.device,
                        config,
                        replies,
                    )
                },
                _ => false,
            }
        }),
{
    let dev_open = DevOpen::Opening(InternalOpen::CreateFile);
    let op = opening(config, dev_open);
    let (n, b) = opening_ends(config, dev_open, session, replies, ok);
    let head = replies.take(n);
    let tail = replies.skip(n);
    opening_lifts(config, dev_open, session, head, b);
    runs_split(op, session, replies, n);
    let (s1, op1) = after(op, session, head);
    assert(completes(op1, s1, tail, ok));
    if b {
        let dev = after(dev_open, session.device, head).0;
        device_open_succeeds_exactly(session.device, head, b);
        opened_device_reads_on_every_buffer(session.device, head);
        assert(head.take(69) =~= head);
        setup_ends_truly(config, Session { device: dev, ..session }, head, tail, ok);
        assert(head + tail =~= replies);
    } else {
        completes_by_steps(op1, s1, tail, ok);
        if device_opens_first(replies) {
            device_opening_ends_with_its_answers(session.device, replies, n, b);
        }
    }
}

/// The error that ends the opening of a channel is true, and tells what went wrong. That the search
/// failed is said only where no first part of the answers is that of a search that finds its
/// devices; that the device did not open, only where it was found and the answers that follow the
/// search are not those with which a device opens. The index that an error names was asked for and
/// is past the devices that were found; the channel that it names was asked for, and the device,
/// which opened, does not have it. Where there is no error the device was found, has the channel
/// and the known clock, and the bitrate is supported.
pub proof fn errors_are_true(config: CandleConfig, replies: Seq<Reply>, ok: bool)
    requires
        completes(
            searching(config, ListScan::GetClassDevs),
            Session { list: CandleList::zero(), device: CandleDevice::zero() },
            replies,
            ok,
        ),
    ensures
        ({
            let session = Session { list: CandleList::zero(), device: CandleDevice::zero() };
            let (end, last) = after(
                searching(config, ListScan::GetClassDevs),
                session,
                replies,
            );
            match last {
                OpenCandle::Finished { result: Ok(_) } => {
                    &&& ok
                    &&& config.device_index < end.list.num_devices
                    &&& can_set_up(end.device, config)
                },
                OpenCandle::Finished { result: Err(e) } => {
                    &&& !ok
                    &&& ended_truly(e, end, config, replies)
                    &&& e matches CandleError::NativeError { context, .. } ==> {
                        &&& context == "list_scan" ==> search_fails(replies)
                        &&& context == "dev_open" ==> {
                            &&& exists|m: int, entries: Seq<Seq<Reply>>|
                                device_found(config, replies, m, entries)
                            &&& forall|m: int, entries: Seq<Seq<Reply>>| #[trigger]
                                device_found(config, replies, m, entries) ==> !device_opens_first(
                                    replies.skip(m),
                                )
                        }
                    }
                },
                _ => false,
            }
        }),
{
    let session = Session { list: CandleList::zero(), device: CandleDevice::zero() };
    let scan = ListScan::GetClassDevs;
    let start = searching(config, scan);
    let (m, found) = search_ends(config, scan, session, replies, ok);
    let head = replies.take(m);
    let rest = replies.skip(m);
    search_succeeds_exactly(head, found);
    search_lifts(config, scan, session, head, found);
    runs_split(start, session, replies, m);
    let list = after(scan, session.list, head).0;
    let (s1, op1) = after(start, session, head);
    assert(completes(op1, s1, rest, ok));
    let (end, last) = after(start, session, replies);
    contexts_differ();
    if !found {
        completes_by_steps(op1, s1, rest, ok);
        assert forall|i: int, entries: Seq<Seq<Reply>>| 0 <= i <= replies.len() implies !#[trigger]
            search_finds(replies.take(i), entries) by {
            if search_finds(replies.take(i), entries) {
                search_ends_with_its_entries(replies, m, found, i, entries);
            }
        }
        assert(search_fails(replies));
    } else {
        scan_counts_what_it_read(head, found);
        let entries = choose|entries: Seq<Seq<Reply>>| search_finds(head, entries);
        if config.device_index < list.num_devices {
            assert(op1 == opening(config, DevOpen::Opening(InternalOpen::CreateFile)));
            found_channel_ends_truly(config, s1, rest, ok);
            assert(device_found(config, replies, m, entries));
            if let OpenCandle::Finished { result: Err(e) } = last {
                assert(ended_after_search(e, end, config, replies, m, entries));
                assert forall|i: int, others: Seq<Seq<Reply>>| #[trigger]
                    device_found(config, replies, i, others) implies i == m by {
                    search_ends_with_its_entries(replies, m, found, i, others);
                }
            }
        } else {
            completes_by_steps(op1, s1, rest, ok);
            assert(head =~= replies);
        }
    }
}

/// The contexts of errors are different texts.
proof fn contexts_differ()
    ensures
        "list_scan" != "dev_open",
        "list_scan" != "channel_set_bitrate",
        "list_scan" != "channel_start",
        "dev_open" != "channel_set_bitrate",
        "dev_open" != "channel_start",
{
    reveal_strlit("list_scan");
    reveal_strlit("dev_open");
    reveal_strlit("channel_set_bitrate");
    reveal_strlit("channel_start");
    assert("list_scan"@.len() == 9 && "dev_open"@.len() == 8);
    assert("channel_set_bitrate"@.len() == 19 && "channel_start"@.len() == 13);
}

/// What is told of a listed device is its place in the list, one channel, and its path: the first
/// `n` units of the path of that very entry, none of which is zero, where `n` is 255 or the unit
/// after them is a zero.
pub proof fn listed_device_is_the_entry(info: CandleDeviceInfo, list: CandleList, i: int)
    requires
        0 <= i < 32,
        info.describes(list, i),
    ensures
        info.index == i,
        info.channel_count == 1,
        exists|n: int|
            {
                &&& 0 <= n <= 255
                &&& info.path@ == utf16_lossy(#[trigger] list.devices[i].path@.take(n))
                &&& forall|j: int| 0 <= j < n ==> list.devices[i].path@[j] != 0
                &&& n < 255 ==> list.devices[i].path@[n] == 0
            },
{
    let path = list.devices[i].path;
    path_ends_at_its_first_zero(path);
    let n = path_units(path).len() as int;
    assert(path_units(path) =~= path@.take(n));
    assert forall|j: int| 0 <= j < n implies path@[j] != 0 by {
        assert(path[j] != 0);
    }
}

/// Over a search and a listing: the path that is told of the device `i` is the text of the units
/// that the search read for the entry `i`, up to their first zero.
pub proof fn listed_path_is_the_one_found(
    replies: Seq<Reply>,
    entries: Seq<Seq<Reply>>,
    i: int,
    info: CandleDeviceInfo,
    z: int,
)
    requires
        completes(ListScan::GetClassDevs, CandleList::zero(), replies, true),
        search_finds(replies, entries),
        0 <= i < entries.len(),
        info.describes(after(ListScan::GetClassDevs, CandleList::zero(), replies).0, i),
        ({
            let units = entries[i][1]->Path_0.unwrap()@;
            &&& 0 <= z < units.len()
            &&& z <= 255
            &&& units[z] == 0
            &&& no_zero_before(units, z)
        }),
    ensures
        info.index == i,
        info.path@ == utf16_lossy(entries[i][1]->Path_0.unwrap()@.take(z)),
{
    let list = after(ListScan::GetClassDevs, CandleList::zero(), replies).0;
    let units = entries[i][1]->Path_0.unwrap()@;
    search_succeeds_exactly(replies, true);
    entry_of_search(replies.drop_first(), replies[0]->Handle_0.unwrap(), entries, i);
    entry_is_probed(replies[0]->Handle_0.unwrap(), entries[i]);
    let path = list.devices[i].path;
    listed_device_is_the_entry(info, list, i);
    let n = choose|n: int|
        {
            &&& 0 <= n <= 255
            &&& info.path@ == utf16_lossy(#[trigger] path@.take(n))
            &&& forall|j: int| 0 <= j < n ==> path@[j] != 0
            &&& n < 255 ==> path@[n] == 0
        };
    assert forall|j: int| 0 <= j <= z implies path@[j] == units[j] by {
        assert(no_zero_before(units, j));
        assert(path[j] == units[j] || j == 256);
    }
    assert(n == z);
    assert(path@.take(n) =~= units.take(z));
}

/// Each entry that a search finds was read.
proof fn entry_of_search(replies: Seq<Reply>, devs: isize, entries: Seq<Seq<Reply>>, i: int)
    requires
        finds_entries(devs, replies, entries),
        0 <= i < entries.len(),
    ensures
        completes(ReadDi::DetailLength { devs }, CandleDevice::zero(), entries[i], true),
    decreases entries.len(),
{
    if i > 0 {
        entry_of_search(
            replies.skip(entries[0].len() as int + 1),
            devs,
            entries.drop_first(),
            i - 1,
        );
    }
}

/// The device that is opened is the one asked for: the call that follows the search opens the file
/// whose path the search read for the entry at the place asked for, and that path is the one of the
/// device from there on.
pub proof fn device_asked_for_is_opened(
    config: CandleConfig,
    replies: Seq<Reply>,
    m: int,
    entries: Seq<Seq<Reply>>,
    ok: bool,
)
    requires
        completes(
            searching(config, ListScan::GetClassDevs),
            Session { list: CandleList::zero(), device: CandleDevice::zero() },
            replies,
            ok,
        ),
        device_found(config, replies, m, entries),
    ensures
        ({
            let start = searching(config, ListScan::GetClassDevs);
            let session = Session { list: CandleList::zero(), device: CandleDevice::zero() };
            let made = calls(start, session, replies);
            let end = after(start, session, replies).0;
            let units = entries[config.device_index as int][1]->Path_0.unwrap()@;
            &&& m < made.len()
            &&& made[m] == (Request::CreateFile { path: end.device.path })
            &&& path_is_copied(CandleDevice::zero().path, units, end.device.path)
            &&& end.list.num_devices == entries.len()
            &&& end.device.path == end.list.devices[config.device_index as int].path
            &&& end.device.state == end.list.devices[config.device_index as int].state
        }),
{
    let session = Session { list: CandleList::zero(), device: CandleDevice::zero() };
    let scan = ListScan::GetClassDevs;
    let start = searching(config, scan);
    let i = config.device_index as int;
    let (k, found) = search_ends(config, scan, session, replies, ok);
    search_ends_with_its_entries(replies, k, found, m, entries);
    let head = replies.take(m);
    let rest = replies.skip(m);
    let devs = replies[0]->Handle_0.unwrap();
    search_lifts(config, scan, session, head, found);
    runs_split(start, session, replies, m);
    let list = after(scan, session.list, head).0;
    let (s1, op1) = after(start, session, head);
    assert(list.devices[i] == entry_device(devs, entries[i]));
    assert(head[0] == replies[0]);
    entry_of_search(head.drop_first(), devs, entries, i);
    entry_is_probed(devs, entries[i]);
    entry_is_handed_out(list, i);
    let dev = list.handed_out(i);
    assert(dev.path =~= list.devices[i].path);
    assert(s1.device == dev);
    assert(op1 == opening(config, DevOpen::Opening(InternalOpen::CreateFile)));
    calls_match_replies(scan, session.list, head);
    path_stays(op1, s1, rest, ok);
}

/// From where the device is picked, its path, its state and the list stay.
proof fn path_stays(op: OpenCandle, session: Session, replies: Seq<Reply>, ok: bool)
    requires
        op.wf(),
        op matches OpenCandle::Device { device, .. } ==> device is Opening,
        completes(op, session, replies, ok),
    ensures
        ({
            let end = after(op, session, replies).0;
            &&& end.device.path == session.device.path
            &&& end.device.state == session.device.state
            &&& end.list == session.list
            &&& op == opening(
                op->Device_config,
                DevOpen::Opening(InternalOpen::CreateFile),
            ) ==> {
                &&& calls(op, session, replies).len() > 0
                &&& calls(op, session, replies)[0] == (Request::CreateFile {
                    path: session.device.path,
                })
            }
        }),
    decreases replies.len(),
{
    completes_by_steps(op, session, replies, ok);
    if replies.len() > 0 {
        op.advances(session, replies[0]);
        let (s, o) = op.next(session, replies[0]);
        path_stays(o, s, replies.drop_first(), ok);
    }
}

/// What opens a channel once the device was found: its file, its interface and its reads, and then
/// two transfers on that interface, the one that sets the bit timing for the bitrate asked for, and
/// the one that starts the channel with a timestamp on every frame. Both name the channel asked for.
#[verifier::spinoff_prover]
#[verifier::rlimit(50)]
pub proof fn open_channel_makes_these_calls(
    config: CandleConfig,
    replies: Seq<Reply>,
    m: int,
    entries: Seq<Seq<Reply>>,
)
    requires
        completes(
            searching(config, ListScan::GetClassDevs),
            Session { list: CandleList::zero(), device: CandleDevice::zero() },
            replies,
            true,
        ),
        device_found(config, replies, m, entries),
    ensures
        ({
            let start = searching(config, ListScan::GetClassDevs);
            let session = Session { list: CandleList::zero(), device: CandleDevice::zero() };
            let made = calls(start, session, replies);
            let end = after(start, session, replies).0;
            let usb = replies[m + 1]->Handle_0.unwrap();
            let number = replies[m + 2]->Interface_0.unwrap().number;
            &&& made.len() == m + 71
            &&& made[m] == (Request::CreateFile { path: end.device.path })
            &&& made[m + 1] == (Request::Initialize { file: replies[m]->Handle_0.unwrap() })
            &&& forall|u: int|
                0 <= u < 30 ==> #[trigger] made[m + 9 + 2 * u] == Request::CreateEvent
            &&& timing_for(config.bitrate) is Some
            &&& made[m + 69] == (Request::Control {
                usb,
                packet: SetupPacket {
                    request_type: 0x41,
                    request: 1,
                    value: config.channel as u16,
                    index: 0,
                    length: 20,
                },
                data: ControlData::Timing(timing_for(config.bitrate).unwrap()),
            })
            &&& made[m + 70] == (Request::Control {
                usb,
                packet: SetupPacket {
                    request_type: 0x41,
                    request: 2,
                    value: config.channel as u16,
                    index: number as u16,
                    length: 8,
                },
                data: ControlData::Mode(CandleDeviceMode { mode: 1, flags: 0x10 }),
            })
            &&& end.device.winusb_handle == usb
            &&& Some(end.device.device_handle) == replies[m]->Handle_0
            &&& end.device.interface_number == number
            &&& end.device.dconf.icount == replies[m + 7]->Transfer_data@[3]
            &&& config.channel < end.device.channels()
            &&& stands_at(replies[m + 8]->Transfer_data@, 4, 48_000_000)
        }),
{
    let session = Session { list: CandleList::zero(), device: CandleDevice::zero() };
    let scan = ListScan::GetClassDevs;
    let start = searching(config, scan);
    let made = calls(start, session, replies);
    let end = after(start, session, replies).0;
    device_asked_for_is_opened(config, replies, m, entries, true);
    let (k, found) = search_ends(config, scan, session, replies, true);
    search_ends_with_its_entries(replies, k, found, m, entries);
    let head = replies.take(m);
    let rest = replies.skip(m);
    search_lifts(config, scan, session, head, found);
    runs_split(start, session, replies, m);
    calls_match_replies(start, session, head);
    let (s1, op1) = after(start, session, head);
    assert(op1 == opening(config, DevOpen::Opening(InternalOpen::CreateFile)));
    found_channel_calls(config, s1, rest);
    calls_match_replies(op1, s1, rest);
    let tail = calls(op1, s1, rest);
    assert(rest.len() == 71);
    assert(forall|i: int| m <= i < made.len() ==> #[trigger] made[i] == tail[i - m]);
    assert forall|u: int| 0 <= u < 30 implies #[trigger] made[m + 9 + 2 * u]
        == Request::CreateEvent by {
        assert(tail[9 + 2 * u] == Request::CreateEvent);
    }
    assert(rest[0] == replies[m] && rest[1] == replies[m + 1] && rest[2] == replies[m + 2]);
    assert(rest[7] == replies[m + 7] && rest[8] == replies[m + 8]);
}

/// The same from where the device is picked.
proof fn found_channel_calls(config: CandleConfig, session: Session, replies: Seq<Reply>)
    requires
        completes(
            opening(config, DevOpen::Opening(InternalOpen::CreateFile)),
            session,
            replies,
            true,
        ),
    ensures
        ({
            let op = opening(config, DevOpen::Opening(InternalOpen::CreateFile));
            let made = calls(op, session, replies);
            let end = after(op, session, replies).0;
            let usb = replies[1]->Handle_0.unwrap();
            let number = replies[2]->Interface_0.unwrap().number;
            &&& made.len() == 71
            &&& made[0] == (Request::CreateFile { path: session.device.path })
            &&& made[1] == (Request::Initialize { file: replies[0]->Handle_0.unwrap() })
            &&& forall|u: int| 0 <= u < 30 ==> #[trigger] made[9 + 2 * u] == Request::CreateEvent
            &&& timing_for(config.bitrate) is Some
            &&& made[69] == (Request::Control {
                usb,
                packet: SetupPacket {
                    request_type: 0x41,
                    request: 1,
                    value: config.channel as u16,
                    index: 0,
                    length: 20,
                },
                data: ControlData::Timing(timing_for(config.bitrate).unwrap()),
            })
            &&& made[70] == (Request::Control {
                usb,
                packet: SetupPacket {
                    request_type: 0x41,
                    request: 2,
                    value: config.channel as u16,
                    index: number as u16,
                    length: 8,
                },
                data: ControlData::Mode(CandleDeviceMode { mode: 1, flags: 0x10 }),
            })
            &&& end.device.winusb_handle == usb
            &&& Some(end.device.device_handle) == replies[0]->Handle_0
            &&& end.device.interface_number == number
            &&& end.device.dconf.icount == replies[7]->Transfer_data@[3]
            &&& config.channel < end.device.channels()
            &&& stands_at(replies[8]->Transfer_data@, 4, 48_000_000)
        }),
{
    let dev_open = DevOpen::Opening(InternalOpen::CreateFile);
    let op = opening(config, dev_open);
    let made = calls(op, session, replies);
    let (n, b) = opening_ends(config, dev_open, session, replies, true);
    let head = replies.take(n);
    let tail = replies.skip(n);
    opening_lifts(config, dev_open, session, head, b);
    runs_split(op, session, replies, n);
    calls_match_replies(op, session, head);
    let (s1, op1) = after(op, session, head);
    if !b {
        completes_by_steps(op1, s1, tail, true);
    }
    device_opening_makes_these_calls(session.device, head);
    device_holds_its_number(session.device, head);
    let mh = calls(dev_open, session.device, head);
    let dev = after(dev_open, session.device, head).0;
    setup_makes_two_calls(config, Session { device: dev, ..session }, tail);
    let mt = calls(op1, s1, tail);
    assert(made =~= mh + mt);
    assert(made[69] == mt[0] && made[70] == mt[1]);
    assert(mh[0] == opening_call(session.device, head.take(9), 0));
    assert(mh[1] == opening_call(session.device, head.take(9), 1));
    assert(made[0] == mh[0] && made[1] == mh[1]);
    assert forall|u: int| 0 <= u < 30 implies #[trigger] made[9 + 2 * u]
        == Request::CreateEvent by {
        assert(mh[9 + 2 * u] == Request::CreateEvent);
        assert(made[9 + 2 * u] == mh[9 + 2 * u]);
    }
    assert(head[0] == replies[0] && head[1] == replies[1] && head[2] == replies[2]);
    assert(head[7] == replies[7] && head[8] == replies[8]);
}

/// The number of the interface and the clock of a device that opened.
proof fn device_holds_its_number(dev: CandleDevice, replies: Seq<Reply>)
    requires
        completes(DevOpen::Opening(InternalOpen::CreateFile), dev, replies, true),
    ensures
        ({
            let end = after(DevOpen::Opening(InternalOpen::CreateFile), dev, replies).0;
            &&& end.interface_number == replies[2]->Interface_0.unwrap().number
            &&& end.dconf.icount == replies[7]->Transfer_data@[3]
            &&& stands_at(replies[8]->Transfer_data@, 4, end.bt_const.fclk_can)
        }),
{
    opened_device_reads_on_every_buffer(dev, replies);
    device_opening_makes_these_calls(dev, replies);
    let op = DevOpen::Opening(InternalOpen::CreateFile);
    let made = calls(op, dev, replies);
    runs_answer_calls(op, dev, replies, 8);
    assert(made[8] == opening_call(dev, replies.take(9), 8));
    assert(replies.take(9)[2] == replies[2]);
    assert(replies.take(9)[7] == replies[7] && replies.take(9)[8] == replies[8]);
    read_fields_come_in_order(ControlData::Capability(dev.bt_const), replies[8]->Transfer_data@);
}

proof fn setup_makes_two_calls(config: CandleConfig, session: Session, replies: Seq<Reply>)
    requires
        completes(
            channel_setup(session, config).1,
            channel_setup(session, config).0,
            replies,
            true,
        ),
    ensures
        ({
            let dev = session.device;
            let (s0, op0) = channel_setup(session, config);
            let made = calls(op0, s0, replies);
            let end = after(op0, s0, replies).0;
            &&& can_set_up(dev, config)
            &&& end.device == (CandleDevice { last_error: CandleErr::Success, ..dev })
            &&& made.len() == 2
            &&& made[0] == (Request::Control {
                usb: dev.winusb_handle,
                packet: SetupPacket {
                    request_type: 0x41,
                    request: 1,
                    value: config.channel as u16,
                    index: 0,
                    length: 20,
                },
                data: ControlData::Timing(timing_for(config.bitrate).unwrap()),
            })
            &&& made[1] == (Request::Control {
                usb: dev.winusb_handle,
                packet: SetupPacket {
                    request_type: 0x41,
                    request: 2,
                    value: config.channel as u16,
                    index: dev.interface_number as u16,
                    length: 8,
                },
                data: ControlData::Mode(CandleDeviceMode { mode: 1, flags: 0x10 }),
            })
        }),
{
    assert(0u32 | 0x10u32 == 0x10u32) by (bit_vector);
    let (s0, op0) = channel_setup(session, config);
    completes_by_steps(op0, s0, replies, true);
    let (s1, op1) = op0.next(s0, replies[0]);
    let r1 = replies.drop_first();
    completes_by_steps(op1, s1, r1, true);
    let (s2, op2) = op1.next(s1, r1[0]);
    completes_by_steps(op2, s2, r1.drop_first(), true);
}

} // verus!
