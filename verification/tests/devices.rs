use candle_zencan_adapter::device::{
    candle_channel_count, candle_channel_get_capabilities, candle_dev_free, candle_dev_get,
    candle_dev_get_path, candle_dev_get_state, candle_dev_last_error, candle_list_free,
    candle_list_length, device_channel_count, device_path, last_error_of, next_event, path_prefix,
    CandleDevState, CandleDevice, CandleList,
};
use candle_zencan_adapter::error::{CandleErr, CandleError};
use candle_zencan_adapter::session::list_devices;

fn path(text: &str) -> [u16; 256] {
    let mut p = [0u16; 256];
    for (i, u) in text.encode_utf16().enumerate() {
        p[i] = u;
    }
    p
}

#[test]
fn nothing_is_asked_of_no_device() {
    assert!(!candle_list_free(None));
    assert_eq!(candle_list_length(None), None);
    assert_eq!(candle_dev_get(None, 0), None);
    assert_eq!(candle_dev_get_state(None), None);
    assert_eq!(candle_dev_get_path(None), None);
    assert!(!candle_dev_free(None));
    assert_eq!(candle_dev_last_error(None), 9999);
    assert_eq!(last_error_of(None), CandleErr::Unknown);
    assert_eq!(candle_channel_count(None), None);
    assert_eq!(candle_channel_get_capabilities(None, 0), None);
    assert_eq!(device_path(None), None);
}

#[test]
fn devices_are_handed_out() {
    let mut list = CandleList::default();
    list.num_devices = 1;
    list.devices[3].path = path("abc");
    list.devices[3].state = CandleDevState::InUse;
    list.devices[3].dconf.icount = 7;
    list.devices[3].last_error = CandleErr::CreateFile;
    list.last_error = CandleErr::GetDevices;
    let d = candle_dev_get(Some(&mut list), 3).unwrap();
    assert_eq!(list.last_error, CandleErr::Success);
    assert_eq!(d.path, path("abc"));
    assert_eq!(candle_dev_get_state(Some(&d)), Some(1));
    assert_eq!(d.dconf.icount, 0);
    assert_eq!(d.last_error, CandleErr::Success);
    assert!(candle_dev_free(Some(d)));
    assert_eq!(candle_dev_get(Some(&mut list), 32), None);
    assert_eq!(list.last_error, CandleErr::DevOutOfRange);
    assert!(candle_dev_get(Some(&mut list), 31).is_some());
    assert_eq!(candle_list_length(Some(&list)), Some(1));
    assert!(candle_list_free(Some(list)));
}

#[test]
fn channels_are_counted() {
    let mut d = CandleDevice::default();
    assert_eq!(candle_channel_count(Some(&d)), Some(1));
    d.dconf.icount = 1;
    assert_eq!(device_channel_count(Some(&d)), Some(2));
    d.dconf.icount = 254;
    assert_eq!(candle_channel_count(Some(&d)), Some(255));
    d.dconf.icount = 255;
    assert_eq!(candle_channel_count(Some(&d)), Some(255));
}

#[test]
fn capabilities_of_known_channels() {
    let mut d = CandleDevice::default();
    d.dconf.icount = 1;
    d.bt_const.fclk_can = 48_000_000;
    assert_eq!(candle_channel_get_capabilities(Some(&d), 1), Some(d.bt_const));
    assert_eq!(candle_channel_get_capabilities(Some(&d), 2), None);
}

#[test]
fn states_and_errors_have_numbers() {
    let mut d = CandleDevice::default();
    assert_eq!(candle_dev_get_state(Some(&d)), Some(0));
    d.last_error = CandleErr::SendFrame;
    assert_eq!(candle_dev_last_error(Some(&d)), 14);
    assert_eq!(last_error_of(Some(&d)), CandleErr::SendFrame);
}

#[test]
fn paths_are_text() {
    let mut d = CandleDevice::default();
    assert_eq!(device_path(Some(&d)).unwrap(), "");
    d.path = path("\\\\?\\usb#vid_1d50&pid_606f");
    assert_eq!(device_path(Some(&d)).unwrap(), "\\\\?\\usb#vid_1d50&pid_606f");
    d.path = path("a\u{1D11E}b");
    assert_eq!(device_path(Some(&d)).unwrap(), "a\u{1D11E}b");
    d.path[1] = 0xDC00;
    d.path[2] = b'x' as u16;
    assert_eq!(device_path(Some(&d)).unwrap(), "a\u{FFFD}xb");
}

#[test]
fn paths_end_at_a_zero_or_at_255_units() {
    let mut p = [b'x' as u16; 256];
    assert_eq!(path_prefix(&p).len(), 255);
    p[254] = 0;
    assert_eq!(path_prefix(&p).len(), 254);
    p[0] = 0;
    assert_eq!(path_prefix(&p).len(), 0);
}

#[test]
fn events_that_are_there() {
    let mut events = [0isize; 30];
    assert_eq!(next_event(&events, 0), 30);
    events[3] = -1;
    events[5] = 17;
    events[29] = 1;
    assert_eq!(next_event(&events, 0), 5);
    assert_eq!(next_event(&events, 5), 5);
    assert_eq!(next_event(&events, 6), 29);
    assert_eq!(next_event(&events, 30), 30);
}

#[test]
fn found_devices_are_listed() {
    let mut list = CandleList::default();
    list.num_devices = 2;
    list.devices[0].path = path("first");
    list.devices[1].path = path("second");
    list.devices[1].dconf.icount = 3;
    let infos = list_devices(true, &mut list).unwrap();
    assert_eq!(infos.len(), 2);
    assert_eq!((infos[0].index, infos[0].path.as_str(), infos[0].channel_count), (0, "first", 1));
    assert_eq!((infos[1].index, infos[1].path.as_str(), infos[1].channel_count), (1, "second", 1));
    list.num_devices = 0;
    assert_eq!(list_devices(true, &mut list).unwrap().len(), 0);
}

#[test]
fn listing_fails() {
    let mut list = CandleList::default();
    assert_eq!(
        list_devices(false, &mut list).unwrap_err(),
        CandleError::NativeError { code: CandleErr::Unknown, context: "list_scan" }
    );
    list.num_devices = 33;
    assert_eq!(
        list_devices(true, &mut list).unwrap_err(),
        CandleError::NativeError { code: CandleErr::Unknown, context: "dev_get" }
    );
    assert_eq!(list.last_error, CandleErr::DevOutOfRange);
}

#[test]
fn surrogates_in_paths_are_decoded() {
    let mut d = CandleDevice::default();
    let units = [0xD834, 0xDD1E, 0x006D, 0x0075, 0x0073, 0xDD1E, 0x0069, 0x0063, 0xD834];
    d.path[..9].copy_from_slice(&units);
    assert_eq!(device_path(Some(&d)).unwrap(), "\u{1D11E}mus\u{FFFD}ic\u{FFFD}");
    let mut d = CandleDevice::default();
    d.path[..4].copy_from_slice(&[0xD800, 0xDBFF, 0xDFFF, 0xE000]);
    assert_eq!(device_path(Some(&d)).unwrap(), "\u{FFFD}\u{10FFFF}\u{E000}");
}
