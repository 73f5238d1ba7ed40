use candle_zencan_adapter::open::{PIPE_BULK, POLICY_RAW_IO};
use candle_zencan_adapter::scan::{ERROR_INSUFFICIENT_BUFFER, ERROR_NO_MORE_ITEMS};
use candle_zencan_adapter::transfer::{ERROR_IO_PENDING, WAIT_OBJECT_0, WAIT_TIMEOUT};
use candle_zencan_adapter::usb::get_last_err_code;

#[test]
fn numbers_are_those_of_the_system() {
    assert_eq!(ERROR_IO_PENDING, windows::Win32::Foundation::ERROR_IO_PENDING.0);
    assert_eq!(ERROR_NO_MORE_ITEMS, windows::Win32::Foundation::ERROR_NO_MORE_ITEMS.0);
    assert_eq!(
        ERROR_INSUFFICIENT_BUFFER,
        windows::Win32::Foundation::ERROR_INSUFFICIENT_BUFFER.0
    );
    assert_eq!(WAIT_TIMEOUT, windows::Win32::Foundation::WAIT_TIMEOUT.0);
    assert_eq!(WAIT_OBJECT_0, windows::Win32::Foundation::WAIT_OBJECT_0.0);
    assert_eq!(PIPE_BULK, windows::Win32::Devices::Usb::UsbdPipeTypeBulk.0);
    assert_eq!(POLICY_RAW_IO, windows::Win32::Devices::Usb::RAW_IO.0);
}

#[test]
fn error_codes_are_read_as_bits() {
    assert_eq!(get_last_err_code(None), None);
    assert_eq!(get_last_err_code(Some(5)), Some(5));
    assert_eq!(get_last_err_code(Some(-1)), Some(0xFFFF_FFFF));
    let pending = windows::Win32::Foundation::ERROR_IO_PENDING.to_hresult().0;
    assert_eq!(get_last_err_code(Some(pending)), Some(0x8007_03E5));
}
