use candle_zencan_adapter::can::{CanId, CanMessage};
use candle_zencan_adapter::error::{CandleErr, CandleError, SendError};
use candle_zencan_adapter::usb::get_last_err_code;

#[test]
fn codes_read_back() {
    for raw in 0..30 {
        assert_eq!(CandleErr::from_raw(raw).to_raw(), raw);
    }
    assert_eq!(CandleErr::Unknown.to_raw(), 9999);
}

#[test]
fn numbers_without_a_code_are_unknown() {
    for raw in [-1, 30, 31, 9998, 9999, 10000, i32::MIN, i32::MAX] {
        assert_eq!(CandleErr::from_raw(raw), CandleErr::Unknown);
    }
}

#[test]
fn codes_have_their_numbers() {
    assert_eq!(CandleErr::from_raw(0), CandleErr::Success);
    assert_eq!(CandleErr::from_raw(1), CandleErr::CreateFile);
    assert_eq!(CandleErr::from_raw(15), CandleErr::ReadTimeout);
    assert_eq!(CandleErr::from_raw(27), CandleErr::DevOutOfRange);
    assert_eq!(CandleErr::from_raw(29), CandleErr::SetPipeRawIo);
}

#[test]
fn codes_have_names() {
    let names = [
        "Ok",
        "CreateFile",
        "WinUsbInitialize",
        "QueryInterface",
        "QueryPipe",
        "ParseIfDescr",
        "SetHostFormat",
        "GetDeviceInfo",
        "GetBittimingConst",
        "PrepareRead",
        "SetDeviceMode",
        "SetBittiming",
        "BitrateFclk",
        "BitrateUnsupported",
        "SendFrame",
        "ReadTimeout",
        "ReadWait",
        "ReadResult",
        "ReadSize",
        "SetupDiIfDetails",
        "SetupDiIfDetails2",
        "Malloc",
        "PathLen",
        "Clsid",
        "GetDevices",
        "SetupDiIfEnum",
        "SetTimestampMode",
        "DevOutOfRange",
        "GetTimestamp",
        "SetPipeRawIo",
    ];
    for (raw, name) in names.iter().enumerate() {
        let err = CandleErr::from_raw(raw as i32);
        assert_eq!(err.name(), *name);
        assert_eq!(format!("{:?}", err), *name);
    }
    assert_eq!(CandleErr::Unknown.name(), "Unknown");
    assert_eq!(format!("{:?}", CandleErr::Unknown), "Unknown");
    let e = CandleError::NativeError { code: CandleErr::Success, context: "dev_open" };
    assert_eq!(format!("{:?}", e), "NativeError { code: Ok, context: \"dev_open\" }");
    assert_eq!(e.describe(), "native error Ok at dev_open");
}

#[test]
fn errors_are_described() {
    let e = CandleError::NativeError { code: CandleErr::BitrateUnsupported, context: "channel_set_bitrate" };
    assert_eq!(e.describe(), "native error BitrateUnsupported at channel_set_bitrate");
    assert_eq!(CandleError::ChannelClosed.describe(), "channel closed");
    for n in 0..=255u8 {
        assert_eq!(
            CandleError::InvalidDeviceIndex(n).describe(),
            format!("invalid device index {}", n)
        );
        assert_eq!(CandleError::InvalidChannel(n).describe(), format!("invalid channel {}", n));
    }
}

#[test]
fn send_error_gives_back_its_message() {
    let message = CanMessage { data: [1, 2, 3, 0, 0, 0, 0, 0], dlc: 3, rtr: false, id: CanId::Std(5) };
    let e = SendError { message, details: "no".to_string() };
    assert_eq!(e.message(), "no");
    assert_eq!(e.into_can_message(), message);
}

#[test]
fn last_error_code_keeps_the_bits() {
    assert_eq!(get_last_err_code(None), None);
    assert_eq!(get_last_err_code(Some(997)), Some(997));
    assert_eq!(get_last_err_code(Some(-2147024637)), Some(0x8007_0103));
}
