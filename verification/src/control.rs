//! Control transfers: what is asked of a device besides sending and receiving frames.

use crate::device::CandleDevice;
use crate::error::CandleErr;
use crate::usb::{after, calls, completes, completes_by_steps, Operation, Reply, Request};
use crate::wire::{
    CandleBitTiming, CandleCapability, CandleDeviceConfig, CandleDeviceMode, CandleHostConfig,
    ControlData, SetupPacket,
};
use vstd::prelude::*;

verus! {

pub const USB_DIR_OUT: u8 = 0x00;

pub const USB_DIR_IN: u8 = 0x80;

pub const USB_TYPE_VENDOR: u8 = 0x40;

pub const USB_RECIP_INTERFACE: u8 = 0x01;

pub const CANDLE_BREQ_HOST_FORMAT: u8 = 0;

pub const CANDLE_BREQ_BITTIMING: u8 = 1;

pub const CANDLE_BREQ_MODE: u8 = 2;

pub const CANDLE_BREQ_BT_CONST: u8 = 4;

pub const CANDLE_BREQ_DEVICE_CONFIG: u8 = 5;

pub const CANDLE_TIMESTAMP_GET: u8 = 6;

pub const CANDLE_DEVMODE_RESET: u32 = 0;

pub const CANDLE_DEVMODE_START: u32 = 1;

/// Asks for a timestamp on every frame.
pub const CANDLE_MODE_HW_TIMESTAMP: u32 = 0x10;

/// The clock for which the bit timings are known.
pub const CANDLE_CLOCK: u32 = 48_000_000;

/// A control transfer. `error` becomes the last error of the device where it fails.
#[derive(Debug, Clone, Copy)]
pub enum Control {
    /// It was refused before any call.
    Refused,
    /// It is to be made.
    Pending { usb: isize, packet: SetupPacket, data: ControlData, error: CandleErr },
    /// It was made, and left `data` in the buffer.
    Finished { ok: bool, data: ControlData },
}

impl Control {
    /// The packet says how many bytes the buffer has.
    pub open spec fn sized(self) -> bool {
        self is Pending ==> self->packet.length == self->Pending_data.bytes().len()
    }
}

/// The last error of a device after a transfer.
pub open spec fn verdict(ok: bool, error: CandleErr) -> CandleErr {
    if ok {
        CandleErr::Success
    } else {
        error
    }
}

impl Operation for Control {
    type State = CandleDevice;

    open spec fn wf(self) -> bool {
        self.sized()
    }

    open spec fn pending(self, dev: CandleDevice) -> Option<Request> {
        match self {
            Control::Pending { usb, packet, data, .. } => Some(
                Request::Control { usb, packet, data },
            ),
            _ => None,
        }
    }

    open spec fn next(self, dev: CandleDevice, reply: Reply) -> (CandleDevice, Self) {
        match (self, reply) {
            (Control::Pending { data, error, .. }, Reply::Transfer { ok, data: buffer }) => (
                CandleDevice { last_error: verdict(ok, error), ..dev },
                Control::Finished { ok, data: data.filled(buffer@) },
            ),
            _ => (dev, self),
        }
    }

    open spec fn result(self) -> Option<bool> {
        match self {
            Control::Refused => Some(false),
            Control::Pending { .. } => None,
            Control::Finished { ok, .. } => Some(ok),
        }
    }

    open spec fn calls_left(self) -> nat {
        if self is Pending {
            1
        } else {
            0
        }
    }

    proof fn calls_until_the_end(self, dev: CandleDevice) {
    }

    proof fn advances(self, dev: CandleDevice, reply: Reply) {
    }

    fn request(self, dev: &CandleDevice) -> (request: Option<Request>) {
        match self {
            Control::Pending { usb, packet, data, .. } => Some(
                Request::Control { usb, packet, data },
            ),
            _ => None,
        }
    }

    fn step(self, dev: &mut CandleDevice, reply: &Reply) -> (op: Self) {
        match (self, reply) {
            (Control::Pending { data, error, .. }, Reply::Transfer { ok, data: buffer }) => {
                dev.last_error = if *ok {
                    CandleErr::Success
                } else {
                    error
                };
                Control::Finished { ok: *ok, data: data.fill(buffer.as_slice()) }
            },
            _ => self,
        }
    }

    fn outcome(self) -> (ok: Option<bool>) {
        match self {
            Control::Refused => Some(false),
            Control::Pending { .. } => None,
            Control::Finished { ok, .. } => Some(ok),
        }
    }
}

/// The control transfer with that setup packet and that buffer.
pub open spec fn control_msg(
    usb: isize,
    request: u8,
    request_type: u8,
    value: u16,
    index: u16,
    data: ControlData,
    error: CandleErr,
) -> Control {
    Control::Pending {
        usb,
        packet: SetupPacket { request_type, request, value, index, length: data.size() },
        data,
        error,
    }
}

/// Sets up a control transfer.
pub fn usb_control_msg(
    usb: isize,
    request: u8,
    request_type: u8,
    value: u16,
    index: u16,
    data: ControlData,
    error: CandleErr,
) -> (op: Control)
    ensures
        op == control_msg(usb, request, request_type, value, index, data, error),
        op.wf(),
{
    let length = data.len();
    Control::Pending {
        usb,
        packet: SetupPacket { request_type, request, value, index, length },
        data,
        error,
    }
}

fn type_out() -> (t: u8)
    ensures
        t == 0x41,
{
    assert(0x00u8 | 0x40u8 | 0x01u8 == 0x41u8) by (bit_vector);
    USB_DIR_OUT | USB_TYPE_VENDOR | USB_RECIP_INTERFACE
}

fn type_in() -> (t: u8)
    ensures
        t == 0xC1,
{
    assert(0x80u8 | 0x40u8 | 0x01u8 == 0xC1u8) by (bit_vector);
    USB_DIR_IN | USB_TYPE_VENDOR | USB_RECIP_INTERFACE
}

/// The transfer that fixes the byte order.
pub open spec fn host_format_msg(dev: CandleDevice) -> Control {
    control_msg(
        dev.winusb_handle,
        CANDLE_BREQ_HOST_FORMAT,
        0x41,
        1,
        dev.interface_number as u16,
        ControlData::HostFormat(CandleHostConfig { byte_order: 0x0000_beef }),
        CandleErr::SetHostFormat,
    )
}

/// The transfer that sets the mode of a channel.
pub open spec fn device_mode_msg(dev: CandleDevice, channel: u8, mode: u32, flags: u32) -> Control {
    control_msg(
        dev.winusb_handle,
        CANDLE_BREQ_MODE,
        0x41,
        channel as u16,
        dev.interface_number as u16,
        ControlData::Mode(CandleDeviceMode { mode, flags }),
        CandleErr::SetDeviceMode,
    )
}

/// The transfer that reads the configuration.
pub open spec fn config_msg(dev: CandleDevice, held: CandleDeviceConfig) -> Control {
    control_msg(
        dev.winusb_handle,
        CANDLE_BREQ_DEVICE_CONFIG,
        0xC1,
        1,
        dev.interface_number as u16,
        ControlData::Config(held),
        CandleErr::GetDeviceInfo,
    )
}

/// The transfer that reads the time.
pub open spec fn timestamp_msg(dev: CandleDevice, held: u32) -> Control {
    control_msg(
        dev.winusb_handle,
        CANDLE_TIMESTAMP_GET,
        0xC1,
        1,
        dev.interface_number as u16,
        ControlData::Timestamp(held),
        CandleErr::GetTimestamp,
    )
}

/// The transfer that reads the capability of a channel.
pub open spec fn capability_msg(
    dev: CandleDevice,
    channel: u8,
    held: CandleCapability,
) -> Control {
    control_msg(
        dev.winusb_handle,
        CANDLE_BREQ_BT_CONST,
        0xC1,
        channel as u16,
        0,
        ControlData::Capability(held),
        CandleErr::GetBittimingConst,
    )
}

/// The transfer that sets the bit timing of a channel.
pub open spec fn bittiming_msg(dev: CandleDevice, channel: u8, timing: CandleBitTiming) -> Control {
    control_msg(
        dev.winusb_handle,
        CANDLE_BREQ_BITTIMING,
        0x41,
        channel as u16,
        0,
        ControlData::Timing(timing),
        CandleErr::SetBittiming,
    )
}

/// Fixes the byte order of what the device sends.
pub fn candle_ctrl_set_host_format(dev: &CandleDevice) -> (op: Control)
    ensures
        op == host_format_msg(*dev),
        op.wf(),
{
    usb_control_msg(
        dev.winusb_handle,
        CANDLE_BREQ_HOST_FORMAT,
        type_out(),
        1,
        dev.interface_number as u16,
        ControlData::HostFormat(CandleHostConfig { byte_order: 0x0000_beef }),
        CandleErr::SetHostFormat,
    )
}

/// Sets the mode of a channel.
pub fn candle_ctrl_set_device_mode(
    dev: &CandleDevice,
    channel: u8,
    mode: u32,
    flags: u32,
) -> (op: Control)
    ensures
        op == device_mode_msg(*dev, channel, mode, flags),
        op.wf(),
{
    usb_control_msg(
        dev.winusb_handle,
        CANDLE_BREQ_MODE,
        type_out(),
        channel as u16,
        dev.interface_number as u16,
        ControlData::Mode(CandleDeviceMode { mode, flags }),
        CandleErr::SetDeviceMode,
    )
}

/// Reads the configuration of the device over `held`.
pub fn candle_ctrl_get_config(dev: &CandleDevice, held: &CandleDeviceConfig) -> (op: Control)
    ensures
        op == config_msg(*dev, *held),
        op.wf(),
{
    usb_control_msg(
        dev.winusb_handle,
        CANDLE_BREQ_DEVICE_CONFIG,
        type_in(),
        1,
        dev.interface_number as u16,
        ControlData::Config(*held),
        CandleErr::GetDeviceInfo,
    )
}

/// Reads the time of the device over `held`.
pub fn candle_ctrl_get_timestamp(dev: &CandleDevice, held: u32) -> (op: Control)
    ensures
        op == timestamp_msg(*dev, held),
        op.wf(),
{
    usb_control_msg(
        dev.winusb_handle,
        CANDLE_TIMESTAMP_GET,
        type_in(),
        1,
        dev.interface_number as u16,
        ControlData::Timestamp(held),
        CandleErr::GetTimestamp,
    )
}

/// Reads the capability of a channel over `held`.
pub fn candle_ctrl_get_capability(
    dev: &CandleDevice,
    channel: u8,
    held: &CandleCapability,
) -> (op: Control)
    ensures
        op == capability_msg(*dev, channel, *held),
        op.wf(),
{
    usb_control_msg(
        dev.winusb_handle,
        CANDLE_BREQ_BT_CONST,
        type_in(),
        channel as u16,
        0,
        ControlData::Capability(*held),
        CandleErr::GetBittimingConst,
    )
}

/// Sets the bit timing of a channel.
pub fn candle_ctrl_set_bittiming(
    dev: &CandleDevice,
    channel: u8,
    timing: &CandleBitTiming,
) -> (op: Control)
    ensures
        op == bittiming_msg(*dev, channel, *timing),
        op.wf(),
{
    usb_control_msg(
        dev.winusb_handle,
        CANDLE_BREQ_BITTIMING,
        type_out(),
        channel as u16,
        0,
        ControlData::Timing(*timing),
        CandleErr::SetBittiming,
    )
}

/// Reads the time of a device over `held`; refused where there is no device.
pub fn candle_dev_get_timestamp_us(device: Option<&CandleDevice>, held: u32) -> (op: Control)
    ensures
        op == match device {
            Some(d) => timestamp_msg(*d, held),
            None => Control::Refused,
        },
        op.wf(),
{
    match device {
        Some(d) => candle_ctrl_get_timestamp(d, held),
        None => Control::Refused,
    }
}

/// Sets the bit timing of a channel; refused where there is no device or no timing.
pub fn candle_channel_set_timing(
    device: Option<&CandleDevice>,
    channel: u8,
    timing: Option<&CandleBitTiming>,
) -> (op: Control)
    ensures
        op == match (device, timing) {
            (Some(d), Some(t)) => bittiming_msg(*d, channel, *t),
            _ => Control::Refused,
        },
        op.wf(),
{
    match (device, timing) {
        (Some(d), Some(t)) => candle_ctrl_set_bittiming(d, channel, t),
        _ => Control::Refused,
    }
}

/// The bit timing for a bitrate, at the known clock, or `None` where the rate is not supported.
pub open spec fn timing_for(bitrate: u32) -> Option<CandleBitTiming> {
    let t = CandleBitTiming { prop_seg: 1, phase_seg1: 12, phase_seg2: 2, sjw: 1, brp: 0 };
    if bitrate == 10_000 {
        Some(CandleBitTiming { brp: 300, ..t })
    } else if bitrate == 20_000 {
        Some(CandleBitTiming { brp: 150, ..t })
    } else if bitrate == 50_000 {
        Some(CandleBitTiming { brp: 60, ..t })
    } else if bitrate == 83_333 {
        Some(CandleBitTiming { brp: 36, ..t })
    } else if bitrate == 100_000 {
        Some(CandleBitTiming { brp: 30, ..t })
    } else if bitrate == 125_000 {
        Some(CandleBitTiming { brp: 24, ..t })
    } else if bitrate == 250_000 {
        Some(CandleBitTiming { brp: 12, ..t })
    } else if bitrate == 500_000 {
        Some(CandleBitTiming { brp: 6, ..t })
    } else if bitrate == 800_000 {
        Some(CandleBitTiming { brp: 4, phase_seg1: 11, ..t })
    } else if bitrate == 1_000_000 {
        Some(CandleBitTiming { brp: 3, ..t })
    } else {
        None
    }
}

/// The bit timing for a bitrate.
pub fn bit_timing(bitrate: u32) -> (timing: Option<CandleBitTiming>)
    ensures
        timing == timing_for(bitrate),
{
    let mut t = CandleBitTiming { prop_seg: 1, sjw: 1, phase_seg1: 13 - 1, phase_seg2: 2, brp: 0 };
    match bitrate {
        10_000 => {
            t.brp = 300;
        },
        20_000 => {
            t.brp = 150;
        },
        50_000 => {
            t.brp = 60;
        },
        83_333 => {
            t.brp = 36;
        },
        100_000 => {
            t.brp = 30;
        },
        125_000 => {
            t.brp = 24;
        },
        250_000 => {
            t.brp = 12;
        },
        500_000 => {
            t.brp = 6;
        },
        800_000 => {
            t.brp = 4;
            t.phase_seg1 = 12 - 1;
            t.phase_seg2 = 2;
        },
        1_000_000 => {
            t.brp = 3;
        },
        _ => {
            return None;
        },
    }
    Some(t)
}

proof fn clock_over(cycles: int, bitrate: int)
    by (nonlinear_arith)
    requires
        ({
            ||| cycles == 4800 && bitrate == 10_000
            ||| cycles == 2400 && bitrate == 20_000
            ||| cycles == 960 && bitrate == 50_000
            ||| cycles == 576 && bitrate == 83_333
            ||| cycles == 480 && bitrate == 100_000
            ||| cycles == 384 && bitrate == 125_000
            ||| cycles == 192 && bitrate == 250_000
            ||| cycles == 96 && bitrate == 500_000
            ||| cycles == 60 && bitrate == 800_000
            ||| cycles == 48 && bitrate == 1_000_000
        }),
    ensures
        CANDLE_CLOCK as int / cycles == bitrate,
{
}

/// A bit timing gives the rate that it is for: the clock, divided by the prescaler and by the
/// number of quanta in a bit, is the bitrate, to the whole bit per second.
pub proof fn timing_gives_the_bitrate(bitrate: u32)
    ensures
        timing_for(bitrate) matches Some(t) ==> {
            &&& t.brp > 0
            &&& CANDLE_CLOCK as int / (t.brp * t.quanta()) == bitrate
        },
{
    if let Some(t) = timing_for(bitrate) {
        let cycles = t.brp * t.quanta();
        if bitrate == 800_000 {
            assert(t.quanta() == 15 && cycles == t.brp * 15);
        } else {
            assert(t.quanta() == 16 && cycles == t.brp * 16);
        }
        clock_over(cycles, bitrate as int);
    }
}

/// What setting a bitrate starts: the device after it, and the transfer.
pub open spec fn bitrate_start(dev: CandleDevice, channel: u8, bitrate: u32) -> (
    CandleDevice,
    Control,
) {
    if dev.bt_const.fclk_can != CANDLE_CLOCK {
        (CandleDevice { last_error: CandleErr::BitrateFclk, ..dev }, Control::Refused)
    } else {
        match timing_for(bitrate) {
            Some(t) => (dev, bittiming_msg(dev, channel, t)),
            None => (
                CandleDevice { last_error: CandleErr::BitrateUnsupported, ..dev },
                Control::Refused,
            ),
        }
    }
}

/// Sets the bitrate of a channel; refused where there is no device, where its clock is not the
/// known one, and where the rate is not supported.
pub fn candle_channel_set_bitrate(
    device: Option<&mut CandleDevice>,
    channel: u8,
    bitrate: u32,
) -> (op: Control)
    ensures
        match device {
            Some(d) => (*final(d), op) == bitrate_start(*d, channel, bitrate),
            None => op == Control::Refused,
        },
        op.wf(),
{
    match device {
        Some(dev) => {
            if dev.bt_const.fclk_can != CANDLE_CLOCK {
                dev.last_error = CandleErr::BitrateFclk;
                return Control::Refused;
            }
            match bit_timing(bitrate) {
                Some(t) => candle_ctrl_set_bittiming(dev, channel, &t),
                None => {
                    dev.last_error = CandleErr::BitrateUnsupported;
                    Control::Refused
                },
            }
        },
        None => Control::Refused,
    }
}

/// Starts a channel, with a timestamp on every frame; refused where there is no device.
pub fn candle_channel_start(device: Option<&CandleDevice>, channel: u8, flags: u32) -> (op: Control)
    ensures
        op == match device {
            Some(d) => start_msg(*d, channel, flags),
            None => Control::Refused,
        },
        op.wf(),
{
    match device {
        Some(d) => candle_ctrl_set_device_mode(
            d,
            channel,
            CANDLE_DEVMODE_START,
            flags | CANDLE_MODE_HW_TIMESTAMP,
        ),
        None => Control::Refused,
    }
}

/// Resets a channel; refused where there is no device.
pub fn candle_channel_stop(device: Option<&CandleDevice>, channel: u8) -> (op: Control)
    ensures
        op == match device {
            Some(d) => stop_msg(*d, channel),
            None => Control::Refused,
        },
        op.wf(),
{
    match device {
        Some(d) => candle_ctrl_set_device_mode(d, channel, CANDLE_DEVMODE_RESET, 0),
        None => Control::Refused,
    }
}

/// The numbers that are agreed on with the device.
pub proof fn device_protocol_numbers()
    ensures
        USB_DIR_OUT == 0x00 && USB_DIR_IN == 0x80 && USB_TYPE_VENDOR == 0x40,
        USB_RECIP_INTERFACE == 0x01,
        CANDLE_BREQ_HOST_FORMAT == 0 && CANDLE_BREQ_BITTIMING == 1 && CANDLE_BREQ_MODE == 2,
        CANDLE_BREQ_BT_CONST == 4 && CANDLE_BREQ_DEVICE_CONFIG == 5 && CANDLE_TIMESTAMP_GET == 6,
        CANDLE_DEVMODE_RESET == 0 && CANDLE_DEVMODE_START == 1,
        CANDLE_MODE_HW_TIMESTAMP == 0x10,
        CANDLE_CLOCK == 48_000_000,
{
}

/// The operation makes one control transfer: on that interface, with those five fields in the setup
/// packet and that data in the buffer. A failure leaves `error`.
pub open spec fn makes_transfer(
    op: Control,
    usb: isize,
    request_type: u8,
    request: u8,
    value: u16,
    index: u16,
    length: u16,
    data: ControlData,
    error: CandleErr,
) -> bool {
    op matches Control::Pending { usb: u, packet: p, data: d, error: e } && {
        &&& u == usb
        &&& p.request_type == request_type
        &&& p.request == request
        &&& p.value == value
        &&& p.index == index
        &&& p.length == length
        &&& d == data
        &&& e == error
    }
}

/// The transfer that sets the bit timing of a channel names that channel, and carries the timing.
pub proof fn bit_timing_goes_to_its_channel(dev: CandleDevice, channel: u8, timing: CandleBitTiming)
    ensures
        makes_transfer(
            bittiming_msg(dev, channel, timing),
            dev.winusb_handle,
            0x41,
            1,
            channel as u16,
            0,
            20,
            ControlData::Timing(timing),
            CandleErr::SetBittiming,
        ),
{
}

/// The transfer that sets the mode of a channel names that channel and the interface, and carries
/// the mode and its flags.
pub proof fn mode_goes_to_its_channel(dev: CandleDevice, channel: u8, mode: u32, flags: u32)
    ensures
        makes_transfer(
            device_mode_msg(dev, channel, mode, flags),
            dev.winusb_handle,
            0x41,
            2,
            channel as u16,
            dev.interface_number as u16,
            8,
            ControlData::Mode(CandleDeviceMode { mode, flags }),
            CandleErr::SetDeviceMode,
        ),
{
}

/// The transfers that fix the byte order and read the configuration, the time and the capability of
/// a channel.
pub proof fn device_is_asked(
    dev: CandleDevice,
    channel: u8,
    config: CandleDeviceConfig,
    time: u32,
    capability: CandleCapability,
)
    ensures
        makes_transfer(
            host_format_msg(dev),
            dev.winusb_handle,
            0x41,
            0,
            1,
            dev.interface_number as u16,
            4,
            ControlData::HostFormat(CandleHostConfig { byte_order: 0xbeef }),
            CandleErr::SetHostFormat,
        ),
        makes_transfer(
            config_msg(dev, config),
            dev.winusb_handle,
            0xC1,
            5,
            1,
            dev.interface_number as u16,
            12,
            ControlData::Config(config),
            CandleErr::GetDeviceInfo,
        ),
        makes_transfer(
            timestamp_msg(dev, time),
            dev.winusb_handle,
            0xC1,
            6,
            1,
            dev.interface_number as u16,
            4,
            ControlData::Timestamp(time),
            CandleErr::GetTimestamp,
        ),
        makes_transfer(
            capability_msg(dev, channel, capability),
            dev.winusb_handle,
            0xC1,
            4,
            channel as u16,
            0,
            40,
            ControlData::Capability(capability),
            CandleErr::GetBittimingConst,
        ),
{
}

/// A control transfer that is set up has the fields that it was given, and the length of its data.
pub proof fn transfer_is_as_asked(
    usb: isize,
    request: u8,
    request_type: u8,
    value: u16,
    index: u16,
    data: ControlData,
    error: CandleErr,
)
    ensures
        makes_transfer(
            control_msg(usb, request, request_type, value, index, data, error),
            usb,
            request_type,
            request,
            value,
            index,
            match data {
                ControlData::HostFormat(_) => 4,
                ControlData::Mode(_) => 8,
                ControlData::Timing(_) => 20,
                ControlData::Config(_) => 12,
                ControlData::Capability(_) => 40,
                ControlData::Timestamp(_) => 4,
            },
            data,
            error,
        ),
{
}

/// The end of a control transfer: one call is made, as it was asked for. The result is that of the
/// call. The device keeps all but its last error, which is the error of the transfer where that
/// failed, and none where it did not. Over the data lies what the buffer holds.
pub proof fn transfer_makes_one_call(
    usb: isize,
    packet: SetupPacket,
    data: ControlData,
    error: CandleErr,
    dev: CandleDevice,
    replies: Seq<Reply>,
    ok: bool,
)
    requires
        completes(Control::Pending { usb, packet, data, error }, dev, replies, ok),
    ensures
        ({
            let op = Control::Pending { usb, packet, data, error };
            let (end, last) = after(op, dev, replies);
            &&& replies.len() == 1
            &&& ok == replies[0]->Transfer_ok
            &&& calls(op, dev, replies) == seq![Request::Control { usb, packet, data }]
            &&& ok ==> end == (CandleDevice { last_error: CandleErr::Success, ..dev })
            &&& !ok ==> end == (CandleDevice { last_error: error, ..dev })
            &&& last == (Control::Finished {
                ok,
                data: data.filled(replies[0]->Transfer_data@),
            })
        }),
{
    let op = Control::Pending { usb, packet, data, error };
    completes_by_steps(op, dev, replies, ok);
    let (d, o) = op.next(dev, replies[0]);
    completes_by_steps(o, d, replies.drop_first(), ok);
    assert(calls(op, dev, replies) =~= seq![Request::Control { usb, packet, data }]);
}

/// A transfer that was refused makes no call and fails.
pub proof fn refused_transfer_makes_no_call(dev: CandleDevice)
    ensures
        Control::Refused.pending(dev) is None,
        Control::Refused.result() == Some(false),
{
}

/// Which bitrates are supported, and how a bit is made up: a quantum of synchronisation, one of
/// propagation, twelve of the first phase, or eleven at 800 kbit/s, and two of the second, with a
/// jump width of one.
pub proof fn bits_are_made_up(bitrate: u32)
    ensures
        timing_for(bitrate) is Some <==> {
            ||| bitrate == 10_000 || bitrate == 20_000 || bitrate == 50_000 || bitrate == 83_333
            ||| bitrate == 100_000 || bitrate == 125_000 || bitrate == 250_000
            ||| bitrate == 500_000 || bitrate == 800_000 || bitrate == 1_000_000
        },
        timing_for(bitrate) matches Some(t) ==> {
            let quanta = if bitrate == 800_000 { 15int } else { 16 };
            &&& t.prop_seg == 1
            &&& t.phase_seg1 == quanta - 4
            &&& t.phase_seg2 == 2
            &&& t.sjw == 1
            &&& t.brp * quanta * bitrate <= 48_000_000 < t.brp * quanta * (bitrate + 1)
        },
{
    if let Some(t) = timing_for(bitrate) {
        let quanta = if bitrate == 800_000 { 15int } else { 16 };
        let cycles = t.brp * quanta;
        let rate = bitrate as int;
        assert(cycles * rate <= 48_000_000 < cycles * (rate + 1)) by (nonlinear_arith)
            requires
                ({
                    ||| cycles == 4800 && rate == 10_000
                    ||| cycles == 2400 && rate == 20_000
                    ||| cycles == 960 && rate == 50_000
                    ||| cycles == 576 && rate == 83_333
                    ||| cycles == 480 && rate == 100_000
                    ||| cycles == 384 && rate == 125_000
                    ||| cycles == 192 && rate == 250_000
                    ||| cycles == 96 && rate == 500_000
                    ||| cycles == 60 && rate == 800_000
                    ||| cycles == 48 && rate == 1_000_000
                }),
        ;
    }
}

/// What setting a bitrate does: on a device with another clock than 48 MHz, or with a bitrate that
/// is not supported, it is refused, with the error that says so and nothing else changed; else the
/// device stays as it is, and the timing for the bitrate goes to the channel.
pub proof fn bitrate_goes_to_its_channel(dev: CandleDevice, channel: u8, bitrate: u32)
    ensures
        ({
            let (after, op) = bitrate_start(dev, channel, bitrate);
            let clock = dev.bt_const.fclk_can == 48_000_000;
            &&& !clock ==> {
                &&& op is Refused
                &&& after == (CandleDevice { last_error: CandleErr::BitrateFclk, ..dev })
            }
            &&& clock && timing_for(bitrate) is None ==> {
                &&& op is Refused
                &&& after == (CandleDevice { last_error: CandleErr::BitrateUnsupported, ..dev })
            }
            &&& clock && timing_for(bitrate) is Some ==> {
                &&& after == dev
                &&& makes_transfer(
                    op,
                    dev.winusb_handle,
                    0x41,
                    1,
                    channel as u16,
                    0,
                    20,
                    ControlData::Timing(timing_for(bitrate).unwrap()),
                    CandleErr::SetBittiming,
                )
            }
        }),
{
}

/// The transfer that starts a channel.
pub open spec fn start_msg(dev: CandleDevice, channel: u8, flags: u32) -> Control {
    device_mode_msg(dev, channel, CANDLE_DEVMODE_START, flags | CANDLE_MODE_HW_TIMESTAMP)
}

/// The transfer that resets a channel.
pub open spec fn stop_msg(dev: CandleDevice, channel: u8) -> Control {
    device_mode_msg(dev, channel, CANDLE_DEVMODE_RESET, 0)
}

/// Starting a channel sets mode one, with the flags asked for and the one for a timestamp on every
/// frame; stopping it sets mode zero without flags. Both name the channel.
pub proof fn channel_is_started_and_stopped(dev: CandleDevice, channel: u8, flags: u32)
    ensures
        makes_transfer(
            start_msg(dev, channel, flags),
            dev.winusb_handle,
            0x41,
            2,
            channel as u16,
            dev.interface_number as u16,
            8,
            ControlData::Mode(CandleDeviceMode { mode: 1, flags: flags | 0x10 }),
            CandleErr::SetDeviceMode,
        ),
        makes_transfer(
            stop_msg(dev, channel),
            dev.winusb_handle,
            0x41,
            2,
            channel as u16,
            dev.interface_number as u16,
            8,
            ControlData::Mode(CandleDeviceMode { mode: 0, flags: 0 }),
            CandleErr::SetDeviceMode,
        ),
{
}

} // verus!
