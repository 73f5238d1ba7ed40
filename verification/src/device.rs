//! Devices and lists of devices.

use crate::error::CandleErr;
use crate::wire::{CandleCapability, CandleDeviceConfig};
use vstd::prelude::*;

verus! {

/// The number of devices that a list holds.
pub const CANDLE_MAX_DEVICES: usize = 32;

/// The number of reads that are kept waiting on an open device.
pub const CANDLE_URB_COUNT: usize = 30;

/// Whether a device can be opened.
#[derive(Debug, Clone, Copy, PartialEq, Eq, Structural)]
pub enum CandleDevState {
    Avail,
    InUse,
}

impl CandleDevState {
    /// The number that stands for the state.
    pub open spec fn code(self) -> u32 {
        match self {
            CandleDevState::Avail => 0,
            CandleDevState::InUse => 1,
        }
    }
}

/// A device. A handle of zero is none.
#[derive(Debug, Clone, Copy, PartialEq, Eq)]
pub struct CandleDevice {
    pub path: [u16; 256],
    pub state: CandleDevState,
    pub last_error: CandleErr,
    pub device_handle: isize,
    pub winusb_handle: isize,
    pub interface_number: u8,
    pub bulk_in_pipe: u8,
    pub bulk_out_pipe: u8,
    pub dconf: CandleDeviceConfig,
    pub bt_const: CandleCapability,
    pub rxevents: [isize; 30],
}

impl CandleDevice {
    /// A device of which nothing is known.
    pub open spec fn zero() -> Self {
        CandleDevice {
            path: vstd::array::spec_array_fill_for_copy_type(0),
            state: CandleDevState::Avail,
            last_error: CandleErr::Success,
            device_handle: 0,
            winusb_handle: 0,
            interface_number: 0,
            bulk_in_pipe: 0,
            bulk_out_pipe: 0,
            dconf: CandleDeviceConfig::zero(),
            bt_const: CandleCapability::zero(),
            rxevents: vstd::array::spec_array_fill_for_copy_type(0),
        }
    }

    /// The number of channels, which is one more than the device says, but at most 255.
    pub open spec fn channels(self) -> u8 {
        if self.dconf.icount == 255 {
            255
        } else {
            (self.dconf.icount + 1) as u8
        }
    }
}

impl Default for CandleDevice {
    fn default() -> (d: Self)
        ensures
            d == CandleDevice::zero(),
    {
        CandleDevice {
            path: [0; 256],
            state: CandleDevState::Avail,
            last_error: CandleErr::Success,
            device_handle: 0,
            winusb_handle: 0,
            interface_number: 0,
            bulk_in_pipe: 0,
            bulk_out_pipe: 0,
            dconf: CandleDeviceConfig::default(),
            bt_const: CandleCapability::default(),
            rxevents: [0; 30],
        }
    }
}

/// A list of devices, of which the first `num_devices` are there.
#[derive(Debug, Clone, Copy, PartialEq, Eq)]
pub struct CandleList {
    pub num_devices: u8,
    pub last_error: CandleErr,
    pub devices: [CandleDevice; 32],
}

impl CandleList {
    /// An empty list.
    pub open spec fn zero() -> Self {
        CandleList {
            num_devices: 0,
            last_error: CandleErr::Success,
            devices: vstd::array::spec_array_fill_for_copy_type(CandleDevice::zero()),
        }
    }

    /// The device that is handed out for the entry `i`: the path and the state of the entry, and
    /// nothing else of it.
    pub open spec fn handed_out(self, i: int) -> CandleDevice {
        CandleDevice {
            path: self.devices[i].path,
            state: self.devices[i].state,
            ..CandleDevice::zero()
        }
    }
}

impl Default for CandleList {
    fn default() -> (l: Self)
        ensures
            l == CandleList::zero(),
    {
        CandleList {
            num_devices: 0,
            last_error: CandleErr::Success,
            devices: [CandleDevice::default(); 32],
        }
    }
}

/// Gives up a list; whether there was one.
pub fn candle_list_free(list: Option<CandleList>) -> (ok: bool)
    ensures
        ok == (list is Some),
{
    list.is_some()
}

/// The number of devices of a list.
pub fn candle_list_length(list: Option<&CandleList>) -> (length: Option<u8>)
    ensures
        length == match list {
            Some(l) => Some(l.num_devices),
            None => None,
        },
{
    match list {
        Some(l) => Some(l.num_devices),
        None => None,
    }
}

/// Hands out the device of an entry of a list, whether or not a device was found there.
pub fn candle_dev_get(list: Option<&mut CandleList>, dev_num: u8) -> (device: Option<CandleDevice>)
    ensures
        match list {
            Some(l) => {
                if dev_num < CANDLE_MAX_DEVICES {
                    &&& device == Some(l.handed_out(dev_num as int))
                    &&& *final(l) == (CandleList { last_error: CandleErr::Success, ..*l })
                } else {
                    &&& device is None
                    &&& *final(l) == (CandleList { last_error: CandleErr::DevOutOfRange, ..*l })
                }
            },
            None => device is None,
        },
{
    match list {
        None => None,
        Some(l) => {
            if dev_num as usize >= CANDLE_MAX_DEVICES {
                l.last_error = CandleErr::DevOutOfRange;
                return None;
            }
            let mut dev = CandleDevice::default();
            dev.path = l.devices[dev_num as usize].path;
            dev.state = l.devices[dev_num as usize].state;
            dev.last_error = CandleErr::Success;
            l.last_error = CandleErr::Success;
            Some(dev)
        },
    }
}

/// The state of a device, as a number.
pub fn candle_dev_get_state(device: Option<&CandleDevice>) -> (state: Option<u32>)
    ensures
        state == match device {
            Some(d) => Some(d.state.code()),
            None => None,
        },
{
    match device {
        Some(d) => match d.state {
            CandleDevState::Avail => Some(0),
            CandleDevState::InUse => Some(1),
        },
        None => None,
    }
}

/// The path of a device.
pub fn candle_dev_get_path(device: Option<&CandleDevice>) -> (path: Option<[u16; 256]>)
    ensures
        path == match device {
            Some(d) => Some(d.path),
            None => None,
        },
{
    match device {
        Some(d) => Some(d.path),
        None => None,
    }
}

/// Gives up a device; whether there was one.
pub fn candle_dev_free(device: Option<CandleDevice>) -> (ok: bool)
    ensures
        ok == (device is Some),
{
    device.is_some()
}

/// The number of the last error of a device.
pub fn candle_dev_last_error(device: Option<&CandleDevice>) -> (raw: i32)
    ensures
        raw == match device {
            Some(d) => d.last_error.code(),
            None => CandleErr::Unknown.code(),
        },
{
    match device {
        Some(d) => d.last_error.to_raw(),
        None => CandleErr::Unknown.to_raw(),
    }
}

/// The last error of a device, by way of its number.
pub fn last_error_of(device: Option<&CandleDevice>) -> (err: CandleErr)
    ensures
        err == match device {
            Some(d) => d.last_error,
            None => CandleErr::Unknown,
        },
{
    CandleErr::from_raw(candle_dev_last_error(device))
}

/// The number of channels of a device.
pub fn candle_channel_count(device: Option<&CandleDevice>) -> (num_channels: Option<u8>)
    ensures
        num_channels == match device {
            Some(d) => Some(d.channels()),
            None => None,
        },
{
    match device {
        Some(d) => Some(
            if d.dconf.icount == 255 {
                255
            } else {
                d.dconf.icount + 1
            },
        ),
        None => None,
    }
}

/// The number of channels of a device.
pub fn device_channel_count(device: Option<&CandleDevice>) -> (num_channels: Option<u8>)
    ensures
        num_channels == match device {
            Some(d) => Some(d.channels()),
            None => None,
        },
{
    candle_channel_count(device)
}

/// The clock and the bounds on the bit timing of a channel of a device.
pub fn candle_channel_get_capabilities(device: Option<&CandleDevice>, channel: u8) -> (cap: Option<
    CandleCapability,
>)
    ensures
        cap == match device {
            Some(d) if channel <= d.dconf.icount => Some(d.bt_const),
            _ => None,
        },
{
    match device {
        Some(d) => {
            if channel > d.dconf.icount {
                None
            } else {
                Some(d.bt_const)
            }
        },
        None => None,
    }
}

/// The unit is the first half of a surrogate pair.
pub open spec fn is_high(unit: u16) -> bool {
    0xD800 <= unit <= 0xDBFF
}

/// The unit is the second half of a surrogate pair.
pub open spec fn is_low(unit: u16) -> bool {
    0xDC00 <= unit <= 0xDFFF
}

/// The character that a surrogate pair stands for.
pub open spec fn paired(high: u16, low: u16) -> char {
    (0x1_0000 + 0x400 * (high - 0xD800) + (low - 0xDC00)) as char
}

/// The characters that some UTF-16 stands for: one for each surrogate pair, the replacement
/// character for each half of a pair that stands alone, and one for each other unit.
pub open spec fn utf16_lossy(units: Seq<u16>) -> Seq<char>
    decreases units.len(),
{
    if units.len() == 0 {
        Seq::empty()
    } else if units.len() >= 2 && is_high(units[0]) && is_low(units[1]) {
        seq![paired(units[0], units[1])] + utf16_lossy(units.skip(2))
    } else if is_high(units[0]) || is_low(units[0]) {
        seq!['\u{FFFD}'] + utf16_lossy(units.skip(1))
    } else {
        seq![units[0] as char] + utf16_lossy(units.skip(1))
    }
}

/// Units of which none is half of a surrogate pair are a character each.
pub proof fn plain_units_are_characters(units: Seq<u16>)
    requires
        forall|i: int| 0 <= i < units.len() ==> !is_high(#[trigger] units[i]) && !is_low(units[i]),
    ensures
        utf16_lossy(units) == units.map_values(|u: u16| u as char),
    decreases units.len(),
{
    if units.len() > 0 {
        plain_units_are_characters(units.skip(1));
    }
    assert(utf16_lossy(units) =~= units.map_values(|u: u16| u as char));
}

/// `String::from_utf16_lossy`: decodes UTF-16. The contract says that a surrogate pair becomes its
/// character, that each half of a pair that stands alone becomes U+FFFD, and that every other unit
/// becomes the character of that number.
#[verifier::external_body]
fn decode_utf16_lossy(units: &[u16]) -> (s: String)
    ensures
        s@ == utf16_lossy(units@),
{
    String::from_utf16_lossy(units)
}

/// The index of the first zero at or after `from`, or the length where there is none.
pub open spec fn zero_at(s: Seq<u16>, from: int) -> int
    decreases s.len() - from,
{
    if from >= s.len() || s[from] == 0 {
        from
    } else {
        zero_at(s, from + 1)
    }
}

/// The index that `zero_at` gives: every unit before it, from `from` on, is not zero, and it is
/// that of a zero or the length.
pub proof fn zero_at_is_first(s: Seq<u16>, from: int)
    requires
        0 <= from <= s.len(),
    ensures
        from <= zero_at(s, from) <= s.len(),
        forall|i: int| from <= i < zero_at(s, from) ==> s[i] != 0,
        zero_at(s, from) < s.len() ==> s[zero_at(s, from)] == 0,
    decreases s.len() - from,
{
    if from < s.len() && s[from] != 0 {
        zero_at_is_first(s, from + 1);
    }
}

/// The part of a path before its end: up to the first zero among its first 255 units.
pub open spec fn path_units(path: [u16; 256]) -> Seq<u16> {
    path@.take(zero_at(path@.take(255), 0))
}

/// The units of a path before its end.
pub fn path_prefix(path: &[u16; 256]) -> (units: Vec<u16>)
    ensures
        units@ == path_units(*path),
{
    let mut units: Vec<u16> = Vec::new();
    let mut i: usize = 0;
    let ghost head = path@.take(255);
    while i < 255 && path[i] != 0
        invariant
            i <= 255,
            head == path@.take(255),
            units@ =~= path@.take(i as int),
            zero_at(head, 0) == zero_at(head, i as int),
        decreases 255 - i,
    {
        units.push(path[i]);
        i += 1;
    }
    units
}

/// The path of a device as text.
pub fn device_path(device: Option<&CandleDevice>) -> (text: Option<String>)
    ensures
        match device {
            Some(d) => text is Some && text.unwrap()@ == utf16_lossy(path_units(d.path)),
            None => text is None,
        },
{
    match candle_dev_get_path(device) {
        Some(path) => {
            let units = path_prefix(&path);
            Some(decode_utf16_lossy(units.as_slice()))
        },
        None => None,
    }
}

/// `HANDLE::is_invalid` of `windows::Win32::Foundation`: whether a handle is none, which zero and
/// minus one are.
#[verifier::external_body]
fn handle_is_invalid(handle: isize) -> (b: bool)
    ensures
        b == (handle == 0 || handle == -1),
{
    windows::Win32::Foundation::HANDLE(handle).is_invalid()
}

/// The first event at or after `from` that is there, or 30 where there is none.
pub open spec fn event_at(events: [isize; 30], from: int) -> int
    decreases 30 - from,
{
    if from >= 30 || !(events[from] == 0 || events[from] == -1) {
        from
    } else {
        event_at(events, from + 1)
    }
}

/// The index that `event_at` gives: no event before it, from `from` on, is there, and it is that
/// of an event that is, or 30.
pub proof fn event_at_is_first(events: [isize; 30], from: int)
    requires
        0 <= from <= 30,
    ensures
        from <= event_at(events, from) <= 30,
        forall|i: int|
            from <= i < event_at(events, from) ==> #[trigger] events[i] == 0 || events[i] == -1,
        event_at(events, from) < 30 ==> {
            let event = events[event_at(events, from)];
            event != 0 && event != -1
        },
    decreases 30 - from,
{
    if from < 30 && (events[from] == 0 || events[from] == -1) {
        event_at_is_first(events, from + 1);
    }
}

/// The first event at or after `from` that is there, or 30 where there is none.
pub fn next_event(events: &[isize; 30], from: usize) -> (i: usize)
    requires
        from <= 30,
    ensures
        i == event_at(*events, from as int),
        from <= i <= 30,
{
    let mut i = from;
    while i < CANDLE_URB_COUNT && handle_is_invalid(events[i])
        invariant
            from <= i <= 30,
            event_at(*events, from as int) == event_at(*events, i as int),
        decreases 30 - i,
    {
        i += 1;
    }
    i
}

/// The units of the text of a path are the first `n` units of the path, none of which is zero; `n`
/// is 255, or the unit after them is a zero.
pub proof fn path_ends_at_its_first_zero(path: [u16; 256])
    ensures
        ({
            let units = path_units(path);
            let n = units.len() as int;
            &&& n <= 255
            &&& forall|i: int| 0 <= i < n ==> #[trigger] units[i] == path[i]
            &&& forall|i: int| 0 <= i < n ==> #[trigger] path[i] != 0
            &&& n < 255 ==> path[n] == 0
        }),
{
    let head = path@.take(255);
    zero_at_is_first(head, 0);
    assert forall|i: int| 0 <= i < path_units(path).len() implies #[trigger] path[i] != 0 by {
        assert(head[i] != 0);
    }
}

/// A surrogate pair is one character, half of a pair that stands alone is the replacement
/// character, and every other unit is its own character; what follows is read on its own.
pub proof fn units_are_read_one_after_the_other(units: Seq<u16>)
    requires
        units.len() > 0,
    ensures
        ({
            let high = 0xD800 <= units[0] < 0xDC00;
            let low = 0xDC00 <= units[0] < 0xE000;
            let paired = units.len() > 1 && high && 0xDC00 <= units[1] < 0xE000;
            let text = utf16_lossy(units);
            &&& text.len() > 0
            &&& paired ==> {
                &&& text[0] as int == 0x1_0000 + (units[0] - 0xD800) * 0x400 + (units[1] - 0xDC00)
                &&& text.drop_first() == utf16_lossy(units.skip(2))
            }
            &&& !paired && (high || low) ==> text[0] as int == 0xFFFD
            &&& !high && !low ==> text[0] as int == units[0]
            &&& !paired ==> text.drop_first() == utf16_lossy(units.skip(1))
        }),
{
    let text = utf16_lossy(units);
    if units.len() >= 2 && is_high(units[0]) && is_low(units[1]) {
        assert(text.drop_first() =~= utf16_lossy(units.skip(2)));
    } else {
        assert(text.drop_first() =~= utf16_lossy(units.skip(1)));
    }
}

/// A device has one channel more than it says, but at most 255.
pub proof fn channels_are_one_more(dev: CandleDevice)
    ensures
        dev.dconf.icount < 255 ==> dev.channels() == dev.dconf.icount + 1,
        dev.dconf.icount == 255 ==> dev.channels() == 255,
{
}

/// The numbers of the states of a device.
pub proof fn states_have_their_numbers(state: CandleDevState)
    ensures
        state.code() == 0 <==> state is Avail,
        state.code() == 1 <==> state is InUse,
{
}

/// A device of which nothing is known has an empty path, no handles and no events, counts as
/// available, and has no error.
pub proof fn device_is_blank_at_first()
    ensures
        ({
            let dev = CandleDevice::zero();
            &&& forall|i: int| 0 <= i < 256 ==> #[trigger] dev.path[i] == 0
            &&& dev.state is Avail
            &&& dev.last_error is Success
            &&& dev.device_handle == 0 && dev.winusb_handle == 0
            &&& dev.interface_number == 0 && dev.bulk_in_pipe == 0 && dev.bulk_out_pipe == 0
            &&& dev.dconf.icount == 0
            &&& dev.bt_const.fclk_can == 0
            &&& forall|i: int| 0 <= i < 30 ==> #[trigger] dev.rxevents[i] == 0
        }),
        CandleList::zero().num_devices == 0,
        CandleList::zero().last_error is Success,
        forall|i: int|
            0 <= i < 32 ==> #[trigger] CandleList::zero().devices[i] == CandleDevice::zero(),
{
}

/// The device that is handed out for an entry has the path and the state of that very entry, and is
/// otherwise one of which nothing is known.
pub proof fn entry_is_handed_out(list: CandleList, i: int)
    requires
        0 <= i < 32,
    ensures
        ({
            let dev = list.handed_out(i);
            &&& forall|j: int| 0 <= j < 256 ==> #[trigger] dev.path[j] == list.devices[i].path[j]
            &&& dev.state == list.devices[i].state
            &&& dev == (CandleDevice { path: dev.path, state: dev.state, ..CandleDevice::zero() })
        }),
{
}

} // verus!
