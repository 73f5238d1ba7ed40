use candle_zencan_adapter::can::{CanError, CanId, CanMessage};
use candle_zencan_adapter::control::{
    bit_timing, candle_channel_set_bitrate, candle_channel_set_timing, candle_channel_start,
    candle_channel_stop, candle_dev_get_timestamp_us, Control,
};
use candle_zencan_adapter::device::{CandleDevState, CandleDevice, CandleList};
use candle_zencan_adapter::error::{CandleErr, CandleError, ReceiveError};
use candle_zencan_adapter::frame::{message_to_frame, CandleFrame, CANDLE_ID_ERR};
use candle_zencan_adapter::lifecycle::{candle_dev_close, candle_dev_open};
use candle_zencan_adapter::open::candle_dev_internal_open;
use candle_zencan_adapter::scan::{candle_list_scan, copy_path};
use candle_zencan_adapter::session::{open_candle, open_device, CandleConfig, OpenDevice};
use candle_zencan_adapter::transfer::{candle_frame_read, candle_frame_send, FrameRead};
use candle_zencan_adapter::usb::{InterfaceInfo, Operation, PipeInfo, Reply, Request};
use candle_zencan_adapter::wire::{CandleBitTiming, CandleCapability, ControlData, SetupPacket};
use candle_zencan_adapter::worker::{read_frame, send_frame, send_frame_result};

/// Runs an operation over some replies: where it stands then, and the calls that it made.
fn run<O: Operation>(op: O, state: &mut O::State, replies: &[Reply]) -> (O, Vec<Request>) {
    let mut op = op;
    let mut made = Vec::new();
    for reply in replies {
        let request = op.request(state).expect("a call to make");
        assert!(reply.fits(&request));
        made.push(request);
        op = op.step(state, reply);
    }
    assert_eq!(op.request(state).is_none(), op.outcome().is_some());
    (op, made)
}

fn status(ok: bool) -> Reply {
    Reply::Status { ok, last_error: if ok { None } else { Some(5) } }
}

/// What starting a read gets where the read goes on in the background.
fn reading() -> Reply {
    Reply::Status { ok: false, last_error: Some(0x8007_03E5) }
}

fn transfer(ok: bool, data: &[u8]) -> Reply {
    Reply::Transfer { ok, data: data.to_vec() }
}

fn bulk(id: u8) -> Reply {
    Reply::Pipe(Some(PipeInfo { kind: 2, id }))
}

fn config_bytes(icount: u8) -> [u8; 12] {
    [0, 0, 0, icount, 1, 0, 0, 0, 2, 0, 0, 0]
}

fn capability_bytes(fclk: u32) -> Vec<u8> {
    let c = CandleCapability { fclk_can: fclk, ..CandleCapability::default() };
    ControlData::Capability(c).to_bytes()
}

fn opening() -> Vec<Reply> {
    vec![
        Reply::Handle(Some(100)),
        Reply::Handle(Some(200)),
        Reply::Interface(Some(InterfaceInfo { number: 3, endpoints: 2 })),
        bulk(0x81),
        bulk(0x02),
        status(true),
        transfer(true, &[0; 4]),
        transfer(true, &config_bytes(1)),
        transfer(true, &capability_bytes(48_000_000)),
    ]
}

fn open_events() -> Vec<Reply> {
    let mut replies = Vec::new();
    for urb in 0..30 {
        replies.push(Reply::Handle(Some(1000 + urb)));
        replies.push(reading());
    }
    replies
}

fn units(text: &str) -> Vec<u16> {
    let mut u: Vec<u16> = text.encode_utf16().collect();
    u.push(0);
    u
}

#[test]
fn interface_opens() {
    let mut dev = CandleDevice::default();
    dev.path[0] = 65;
    let (op, made) = run(candle_dev_internal_open(), &mut dev, &opening());
    assert_eq!(op.outcome(), Some(true));
    assert_eq!(dev.last_error, CandleErr::Success);
    assert_eq!((dev.device_handle, dev.winusb_handle, dev.interface_number), (100, 200, 3));
    assert_eq!((dev.bulk_in_pipe, dev.bulk_out_pipe), (0x81, 0x02));
    assert_eq!(dev.dconf.icount, 1);
    assert_eq!(dev.dconf.hw_version, 2);
    assert_eq!(dev.bt_const.fclk_can, 48_000_000);
    assert_eq!(made[0], Request::CreateFile { path: dev.path });
    assert_eq!(made[1], Request::Initialize { file: 100 });
    assert_eq!(made[2], Request::QueryInterface { usb: 200 });
    assert_eq!(made[3], Request::QueryPipe { usb: 200, index: 0 });
    assert_eq!(made[4], Request::QueryPipe { usb: 200, index: 1 });
    assert_eq!(made[5], Request::SetPipePolicy { usb: 200, pipe: 0x81, policy: 7, value: 1 });
    match made[6] {
        Request::Control { usb, packet, data } => {
            assert_eq!(usb, 200);
            assert_eq!(
                packet,
                SetupPacket { request_type: 0x41, request: 0, value: 1, index: 3, length: 4 }
            );
            assert_eq!(data.to_bytes(), vec![0xef, 0xbe, 0, 0]);
        }
        _ => panic!("not a transfer"),
    }
    match made[7] {
        Request::Control { packet, .. } => assert_eq!(
            packet,
            SetupPacket { request_type: 0xC1, request: 5, value: 1, index: 3, length: 12 }
        ),
        _ => panic!("not a transfer"),
    }
    match made[8] {
        Request::Control { packet, .. } => assert_eq!(
            packet,
            SetupPacket { request_type: 0xC1, request: 4, value: 0, index: 0, length: 40 }
        ),
        _ => panic!("not a transfer"),
    }
}

fn failing(replies: Vec<Reply>, error: CandleErr) -> Vec<Request> {
    let mut dev = CandleDevice::default();
    let (op, made) = run(candle_dev_internal_open(), &mut dev, &replies);
    assert_eq!(op.outcome(), Some(false));
    assert_eq!(dev.last_error, error);
    made
}

fn assert_releases(made: &[Request]) {
    let n = made.len();
    assert_eq!(made[n - 2], Request::FreeInterface { usb: 200 });
    assert_eq!(made[n - 1], Request::CloseHandle { handle: 100 });
}

#[test]
fn file_does_not_open() {
    let made = failing(vec![Reply::Handle(None)], CandleErr::CreateFile);
    assert_eq!(made.len(), 1);
}

#[test]
fn interface_does_not_initialize() {
    let made = failing(
        vec![Reply::Handle(Some(100)), Reply::Handle(None), Reply::Done],
        CandleErr::WinUsbInitialize,
    );
    assert_eq!(made[2], Request::CloseHandle { handle: 100 });
}

#[test]
fn later_failures_release_both() {
    let stages: Vec<(usize, Reply, CandleErr)> = vec![
        (2, Reply::Interface(None), CandleErr::QueryInterface),
        (3, Reply::Pipe(None), CandleErr::QueryPipe),
        (3, Reply::Pipe(Some(PipeInfo { kind: 3, id: 0x81 })), CandleErr::ParseIfDescr),
        (5, status(false), CandleErr::SetPipeRawIo),
        (6, transfer(false, &[0; 4]), CandleErr::SetHostFormat),
        (7, transfer(false, &[0; 12]), CandleErr::GetDeviceInfo),
        (8, transfer(false, &[0; 40]), CandleErr::GetBittimingConst),
    ];
    for (stage, reply, error) in stages {
        let mut replies = opening();
        replies.truncate(stage);
        replies.push(reply);
        replies.push(Reply::Done);
        replies.push(Reply::Done);
        assert_releases(&failing(replies, error));
    }
}

#[test]
fn pipes_must_be_two() {
    for endpoints in [0u8, 1, 3] {
        let mut replies = vec![
            Reply::Handle(Some(100)),
            Reply::Handle(Some(200)),
            Reply::Interface(Some(InterfaceInfo { number: 0, endpoints })),
        ];
        for i in 0..endpoints {
            replies.push(bulk(i));
        }
        replies.push(Reply::Done);
        replies.push(Reply::Done);
        assert_releases(&failing(replies, CandleErr::ParseIfDescr));
    }
}

#[test]
fn failed_transfer_still_fills_the_configuration() {
    let mut dev = CandleDevice::default();
    let mut replies = opening();
    replies.truncate(7);
    replies.push(transfer(false, &config_bytes(9)));
    replies.push(Reply::Done);
    replies.push(Reply::Done);
    run(candle_dev_internal_open(), &mut dev, &replies);
    assert_eq!(dev.dconf.icount, 9);
}

#[test]
fn device_opens_with_thirty_reads() {
    let mut dev = CandleDevice::default();
    let mut replies = opening();
    replies.extend(open_events());
    let start = candle_dev_open(Some(&dev));
    let (op, made) = run(start, &mut dev, &replies);
    assert_eq!(op.outcome(), Some(true));
    assert_eq!(made.len(), 69);
    for urb in 0..30usize {
        assert_eq!(dev.rxevents[urb], 1000 + urb as isize);
        assert_eq!(made[9 + 2 * urb], Request::CreateEvent);
        assert_eq!(
            made[10 + 2 * urb],
            Request::ReadPipe { usb: 200, pipe: 0x81, urb, event: 1000 + urb as isize }
        );
    }
    assert_eq!(candle_dev_open(None).outcome(), Some(false));
}

#[test]
fn device_does_not_open_without_its_interface() {
    let mut dev = CandleDevice::default();
    let start = candle_dev_open(Some(&dev));
    let (op, _) = run(start, &mut dev, &[Reply::Handle(None)]);
    assert_eq!(op.outcome(), Some(false));
    assert_eq!(dev.last_error, CandleErr::CreateFile);
}

#[test]
fn device_that_lacks_an_event_closes_the_others() {
    let mut dev = CandleDevice::default();
    let mut replies = opening();
    replies.push(Reply::Handle(Some(11)));
    replies.push(reading());
    replies.push(Reply::Handle(Some(12)));
    replies.push(reading());
    replies.push(Reply::Handle(None));
    replies.push(Reply::Done);
    replies.push(Reply::Done);
    let start = candle_dev_open(Some(&dev));
    let (op, made) = run(start, &mut dev, &replies);
    assert_eq!(op.outcome(), Some(false));
    assert_eq!(dev.last_error, CandleErr::Success);
    assert_eq!(made[14], Request::CloseHandle { handle: 11 });
    assert_eq!(made[15], Request::CloseHandle { handle: 12 });
}

#[test]
fn device_whose_read_does_not_start_closes_its_events() {
    for reply in [status(true), Reply::Status { ok: false, last_error: Some(997) }] {
        let mut dev = CandleDevice::default();
        let mut replies = opening();
        replies.push(Reply::Handle(Some(11)));
        replies.push(reply);
        replies.push(Reply::Done);
        let start = candle_dev_open(Some(&dev));
        let (op, made) = run(start, &mut dev, &replies);
        assert_eq!(op.outcome(), Some(false));
        assert_eq!(dev.last_error, CandleErr::PrepareRead);
        assert_eq!(made[11], Request::CloseHandle { handle: 11 });
    }
}

#[test]
fn device_closes() {
    let mut dev = CandleDevice::default();
    dev.device_handle = 1;
    dev.winusb_handle = 2;
    dev.rxevents[4] = 44;
    dev.rxevents[29] = 99;
    dev.rxevents[7] = -1;
    dev.last_error = CandleErr::ReadSize;
    let start = candle_dev_close(Some(&dev));
    let replies = [Reply::Done, Reply::Done, Reply::Done, Reply::Done];
    let (op, made) = run(start, &mut dev, &replies);
    assert_eq!(op.outcome(), Some(true));
    assert_eq!(
        made,
        vec![
            Request::CloseHandle { handle: 44 },
            Request::CloseHandle { handle: 99 },
            Request::FreeInterface { usb: 2 },
            Request::CloseHandle { handle: 1 },
        ]
    );
    assert_eq!((dev.device_handle, dev.winusb_handle), (0, 0));
    assert_eq!(dev.last_error, CandleErr::Success);
    assert_eq!(candle_dev_close(None).outcome(), Some(false));
}

#[test]
fn paths_are_copied_up_to_a_zero() {
    let mut path = [7u16; 256];
    copy_path(&mut path, &[1, 2, 0, 5]);
    assert_eq!(path[..5], [1, 2, 0, 7, 7]);
    let mut path = [7u16; 256];
    copy_path(&mut path, &[3u16; 300]);
    assert_eq!(path, [3u16; 256]);
    let mut path = [7u16; 256];
    copy_path(&mut path, &[3]);
    assert_eq!(path[..2], [3, 7]);
}

#[test]
fn scan_finds_devices() {
    let (mut list, start) = candle_list_scan();
    let mut replies = vec![Reply::Handle(Some(50))];
    replies.push(status(true));
    replies.push(Reply::Length { length: 80, last_error: Some(0x8007_007A) });
    replies.push(Reply::Path(Some(units("one"))));
    replies.extend(opening());
    replies.push(Reply::Done);
    replies.push(Reply::Done);
    replies.push(status(true));
    replies.push(Reply::Length { length: 90, last_error: None });
    replies.push(Reply::Path(Some(units("two"))));
    replies.push(Reply::Handle(None));
    replies.push(Reply::Status { ok: false, last_error: Some(259) });
    replies.push(Reply::Done);
    let (op, made) = run(start, &mut list, &replies);
    assert_eq!(op.outcome(), Some(true));
    assert_eq!(list.num_devices, 2);
    assert_eq!(list.last_error, CandleErr::Success);
    assert_eq!(list.devices[0].state, CandleDevState::Avail);
    assert_eq!(list.devices[0].path[..4], units("one")[..]);
    assert_eq!(list.devices[0].device_handle, 0);
    assert_eq!(list.devices[1].state, CandleDevState::InUse);
    assert_eq!(list.devices[1].last_error, CandleErr::Success);
    assert_eq!(list.devices[2], CandleDevice::default());
    assert_eq!(
        made[0],
        Request::GetClassDevs { guid: 0xc15b4308_04d3_11e6_b3ea_6057189e6443 }
    );
    assert_eq!(made[1], Request::EnumInterface { devs: 50, member: 0 });
    assert_eq!(made[2], Request::DetailLength { devs: 50 });
    assert_eq!(made[3], Request::Detail { devs: 50, length: 80 });
    assert_eq!(made[13], Request::FreeInterface { usb: 200 });
    assert_eq!(made[14], Request::CloseHandle { handle: 100 });
    assert_eq!(made[15], Request::EnumInterface { devs: 50, member: 1 });
    assert_eq!(*made.last().unwrap(), Request::DestroyClassDevs { devs: 50 });
}

#[test]
fn scan_fails() {
    let (mut list, start) = candle_list_scan();
    let (op, _) = run(start, &mut list, &[Reply::Handle(None)]);
    assert_eq!(op.outcome(), Some(false));
    assert_eq!(list.last_error, CandleErr::GetDevices);

    let (mut list, start) = candle_list_scan();
    let replies = [
        Reply::Handle(Some(50)),
        Reply::Status { ok: false, last_error: Some(0x8007_0103) },
        Reply::Done,
    ];
    let (op, _) = run(start, &mut list, &replies);
    assert_eq!(op.outcome(), Some(false));
    assert_eq!(list.last_error, CandleErr::SetupDiIfEnum);

    let (mut list, start) = candle_list_scan();
    let replies = [
        Reply::Handle(Some(50)),
        status(true),
        Reply::Length { length: 80, last_error: Some(122) },
        Reply::Done,
    ];
    let (op, _) = run(start, &mut list, &replies);
    assert_eq!(op.outcome(), Some(false));
    assert_eq!(list.last_error, CandleErr::SetupDiIfDetails);

    let (mut list, start) = candle_list_scan();
    let replies = [
        Reply::Handle(Some(50)),
        status(true),
        Reply::Length { length: 80, last_error: None },
        Reply::Path(None),
        Reply::Done,
    ];
    let (op, _) = run(start, &mut list, &replies);
    assert_eq!(op.outcome(), Some(false));
    assert_eq!(list.last_error, CandleErr::SetupDiIfDetails2);
    assert_eq!(list.num_devices, 0);
}

#[test]
fn scan_of_a_full_list_fails() {
    let (mut list, start) = candle_list_scan();
    let mut replies = vec![Reply::Handle(Some(50))];
    for _ in 0..32 {
        replies.push(status(true));
        replies.push(Reply::Length { length: 80, last_error: None });
        replies.push(Reply::Path(Some(units("x"))));
        replies.push(Reply::Handle(None));
    }
    replies.push(Reply::Done);
    let (op, _) = run(start, &mut list, &replies);
    assert_eq!(op.outcome(), Some(false));
    assert_eq!(list.last_error, CandleErr::Success);
    assert_eq!(list.num_devices, 0);
}

#[test]
fn bitrates_have_timings() {
    let rates: [(u32, u32); 10] = [
        (10_000, 300),
        (20_000, 150),
        (50_000, 60),
        (83_333, 36),
        (100_000, 30),
        (125_000, 24),
        (250_000, 12),
        (500_000, 6),
        (800_000, 4),
        (1_000_000, 3),
    ];
    for (rate, brp) in rates {
        let t = bit_timing(rate).unwrap();
        assert_eq!(t.brp, brp);
        assert_eq!((t.prop_seg, t.phase_seg2, t.sjw), (1, 2, 1));
        assert_eq!(t.phase_seg1, if rate == 800_000 { 11 } else { 12 });
        assert_eq!(48_000_000 / (t.brp * (1 + t.prop_seg + t.phase_seg1 + t.phase_seg2)), rate);
    }
    for rate in [0, 1, 9_999, 33_333, 1_000_001] {
        assert_eq!(bit_timing(rate), None);
    }
}

#[test]
fn bitrate_is_set() {
    let mut dev = CandleDevice::default();
    dev.winusb_handle = 9;
    dev.bt_const.fclk_can = 48_000_000;
    let start = candle_channel_set_bitrate(Some(&mut dev), 1, 500_000);
    let (op, made) = run(start, &mut dev, &[transfer(true, &[0; 20])]);
    assert_eq!(op.outcome(), Some(true));
    match made[0] {
        Request::Control { usb, packet, data } => {
            assert_eq!(usb, 9);
            assert_eq!(
                packet,
                SetupPacket { request_type: 0x41, request: 1, value: 1, index: 0, length: 20 }
            );
            assert_eq!(data.to_bytes()[16..], [6, 0, 0, 0]);
        }
        _ => panic!("not a transfer"),
    }
    let start = candle_channel_set_bitrate(Some(&mut dev), 1, 500_000);
    let (op, _) = run(start, &mut dev, &[transfer(false, &[0; 20])]);
    assert_eq!(op.outcome(), Some(false));
    assert_eq!(dev.last_error, CandleErr::SetBittiming);
}

#[test]
fn bitrate_is_refused() {
    let mut dev = CandleDevice::default();
    assert_eq!(candle_channel_set_bitrate(Some(&mut dev), 0, 500_000).outcome(), Some(false));
    assert_eq!(dev.last_error, CandleErr::BitrateFclk);
    dev.bt_const.fclk_can = 48_000_000;
    assert_eq!(candle_channel_set_bitrate(Some(&mut dev), 0, 33_333).outcome(), Some(false));
    assert_eq!(dev.last_error, CandleErr::BitrateUnsupported);
    assert_eq!(candle_channel_set_bitrate(None, 0, 500_000).outcome(), Some(false));
}

#[test]
fn channel_starts_and_stops() {
    let mut dev = CandleDevice::default();
    dev.interface_number = 2;
    let start = candle_channel_start(Some(&dev), 4, 0x3);
    let (op, made) = run(start, &mut dev, &[transfer(true, &[0; 8])]);
    assert_eq!(op.outcome(), Some(true));
    match made[0] {
        Request::Control { packet, data, .. } => {
            assert_eq!(
                packet,
                SetupPacket { request_type: 0x41, request: 2, value: 4, index: 2, length: 8 }
            );
            assert_eq!(data.to_bytes(), vec![1, 0, 0, 0, 0x13, 0, 0, 0]);
        }
        _ => panic!("not a transfer"),
    }
    let stop = candle_channel_stop(Some(&dev), 4);
    let (op, made) = run(stop, &mut dev, &[transfer(false, &[0; 8])]);
    assert_eq!(op.outcome(), Some(false));
    assert_eq!(dev.last_error, CandleErr::SetDeviceMode);
    match made[0] {
        Request::Control { data, .. } => assert_eq!(data.to_bytes(), vec![0; 8]),
        _ => panic!("not a transfer"),
    }
    assert_eq!(candle_channel_start(None, 0, 0).outcome(), Some(false));
    assert_eq!(candle_channel_stop(None, 0).outcome(), Some(false));
}

#[test]
fn timestamp_is_read() {
    let mut dev = CandleDevice::default();
    let start = candle_dev_get_timestamp_us(Some(&dev), 0);
    let (op, made) = run(start, &mut dev, &[transfer(true, &[1, 2, 3, 4])]);
    match op {
        Control::Finished { ok, data } => {
            assert!(ok);
            assert_eq!(data, ControlData::Timestamp(0x0403_0201));
        }
        _ => panic!("not finished"),
    }
    match made[0] {
        Request::Control { packet, .. } => assert_eq!(
            packet,
            SetupPacket { request_type: 0xC1, request: 6, value: 1, index: 0, length: 4 }
        ),
        _ => panic!("not a transfer"),
    }
    let start = candle_dev_get_timestamp_us(Some(&dev), 0);
    run(start, &mut dev, &[transfer(false, &[0; 4])]);
    assert_eq!(dev.last_error, CandleErr::GetTimestamp);
    assert_eq!(candle_dev_get_timestamp_us(None, 0).outcome(), Some(false));
}

#[test]
fn timing_is_set() {
    let mut dev = CandleDevice::default();
    let t = CandleBitTiming { prop_seg: 1, phase_seg1: 2, phase_seg2: 3, sjw: 4, brp: 5 };
    let start = candle_channel_set_timing(Some(&dev), 0, Some(&t));
    let (op, _) = run(start, &mut dev, &[transfer(true, &t_bytes(&t))]);
    assert_eq!(op.outcome(), Some(true));
    assert_eq!(candle_channel_set_timing(None, 0, Some(&t)).outcome(), Some(false));
    assert_eq!(candle_channel_set_timing(Some(&dev), 0, None).outcome(), Some(false));
}

fn t_bytes(t: &CandleBitTiming) -> Vec<u8> {
    ControlData::Timing(*t).to_bytes()
}

#[test]
fn frames_are_sent() {
    let mut dev = CandleDevice::default();
    dev.winusb_handle = 9;
    dev.bulk_out_pipe = 2;
    let mut frame = CandleFrame { echo_id: 77, can_id: 5, ..CandleFrame::default() };
    let start = candle_frame_send(Some(&dev), 3, Some(&mut frame));
    assert_eq!((frame.echo_id, frame.channel), (0, 3));
    let (op, made) = run(start, &mut dev, &[status(true)]);
    assert_eq!(op.outcome(), Some(true));
    assert_eq!(made, vec![Request::WritePipe { usb: 9, pipe: 2, frame }]);
    let start = candle_frame_send(Some(&dev), 3, Some(&mut frame));
    let (op, _) = run(start, &mut dev, &[status(false)]);
    assert_eq!(op.outcome(), Some(false));
    assert_eq!(dev.last_error, CandleErr::SendFrame);
    assert_eq!(candle_frame_send(None, 3, Some(&mut frame)).outcome(), Some(false));
    assert_eq!(candle_frame_send(Some(&dev), 3, None).outcome(), Some(false));
}

fn buffer(frame: &CandleFrame) -> Vec<u8> {
    let mut b = frame.to_bytes();
    b.resize(128, 0);
    b
}

#[test]
fn frames_are_received() {
    let mut dev = CandleDevice::default();
    dev.winusb_handle = 9;
    dev.bulk_in_pipe = 0x81;
    dev.rxevents[12] = 55;
    let sent = CandleFrame { can_id: 0x42, can_dlc: 2, timestamp_us: 99, ..CandleFrame::default() };
    let replies = [
        Reply::Wait(12),
        Reply::Overlapped { transferred: Some(20), buffer: buffer(&sent) },
        reading(),
    ];
    let start = candle_frame_read(Some(&dev), 10);
    let (op, made) = run(start, &mut dev, &replies);
    match op {
        FrameRead::Finished { ok, read } => {
            assert!(ok);
            assert_eq!(read, Some(sent));
        }
        _ => panic!("not finished"),
    }
    assert_eq!(made[0], Request::WaitEvents { events: dev.rxevents, timeout_ms: 10 });
    assert_eq!(made[1], Request::OverlappedResult { usb: 9, urb: 12 });
    assert_eq!(made[2], Request::ReadPipe { usb: 9, pipe: 0x81, urb: 12, event: 55 });
    assert_eq!(candle_frame_read(None, 10).outcome(), Some(false));
}

#[test]
fn receive_fails() {
    let cases: Vec<(Vec<Reply>, CandleErr)> = vec![
        (vec![Reply::Wait(258)], CandleErr::ReadTimeout),
        (vec![Reply::Wait(30)], CandleErr::ReadWait),
        (vec![Reply::Wait(u32::MAX)], CandleErr::ReadWait),
        (
            vec![
                Reply::Wait(29),
                Reply::Overlapped { transferred: None, buffer: vec![0; 128] },
                reading(),
            ],
            CandleErr::ReadResult,
        ),
        (
            vec![
                Reply::Wait(0),
                Reply::Overlapped { transferred: Some(19), buffer: vec![0; 128] },
                status(true),
            ],
            CandleErr::ReadSize,
        ),
        (
            vec![
                Reply::Wait(0),
                Reply::Overlapped { transferred: Some(24), buffer: vec![0; 128] },
                status(true),
            ],
            CandleErr::PrepareRead,
        ),
    ];
    for (replies, error) in cases {
        let mut dev = CandleDevice::default();
        let start = candle_frame_read(Some(&dev), 10);
        let (op, _) = run(start, &mut dev, &replies);
        assert_eq!(op.outcome(), Some(false));
        assert_eq!(dev.last_error, error);
    }
}

#[test]
fn replies_fit_their_requests() {
    let data = ControlData::Timestamp(0);
    let packet = SetupPacket { request_type: 0, request: 0, value: 0, index: 0, length: 4 };
    let control = Request::Control { usb: 1, packet, data };
    assert!(transfer(true, &[0; 4]).fits(&control));
    assert!(!transfer(true, &[0; 5]).fits(&control));
    assert!(!Reply::Done.fits(&control));
    assert!(!status(true).fits(&Request::CreateEvent));
    let result = Request::OverlappedResult { usb: 1, urb: 0 };
    assert!(Reply::Overlapped { transferred: None, buffer: vec![0; 128] }.fits(&result));
    assert!(!Reply::Overlapped { transferred: None, buffer: vec![0; 24] }.fits(&result));
}

fn finding(path: &str) -> Vec<Reply> {
    vec![
        Reply::Handle(Some(50)),
        status(true),
        Reply::Length { length: 80, last_error: None },
        Reply::Path(Some(units(path))),
        Reply::Handle(None),
        Reply::Status { ok: false, last_error: Some(259) },
        Reply::Done,
    ]
}

fn config(device_index: u8, channel: u8, bitrate: u32) -> CandleConfig {
    CandleConfig { device_index, channel, bitrate }
}

#[test]
fn channel_opens() {
    let (mut session, start) = open_candle(config(0, 1, 250_000));
    let mut replies = finding("dev");
    replies.extend(opening());
    replies.extend(open_events());
    replies.push(transfer(true, &[0; 20]));
    replies.push(transfer(true, &[0; 8]));
    let (op, made) = run(start, &mut session, &replies);
    assert_eq!(op.outcome(), Some(true));
    assert_eq!(op.error(), None);
    let n = made.len();
    match (made[n - 2], made[n - 1]) {
        (
            Request::Control { packet: p, data: d, .. },
            Request::Control { packet: q, data: e, .. },
        ) => {
            assert_eq!((p.request, p.value), (1, 1));
            assert_eq!(d.to_bytes()[16..], [12, 0, 0, 0]);
            assert_eq!((q.request, q.value), (2, 1));
            assert_eq!(e.to_bytes(), vec![1, 0, 0, 0, 0x10, 0, 0, 0]);
        }
        _ => panic!("not transfers"),
    }
    assert_eq!(session.device.path[..4], units("dev")[..]);
}

fn open_error(config: CandleConfig, replies: Vec<Reply>) -> CandleError {
    let (mut session, start) = open_candle(config);
    let (op, _) = run(start, &mut session, &replies);
    assert_eq!(op.outcome(), Some(false));
    op.error().unwrap()
}

fn native(code: CandleErr, context: &'static str) -> CandleError {
    CandleError::NativeError { code, context }
}

#[test]
fn channel_does_not_open() {
    assert_eq!(
        open_error(config(0, 0, 500_000), vec![Reply::Handle(None)]),
        native(CandleErr::Unknown, "list_scan")
    );
    assert_eq!(
        open_error(config(1, 0, 500_000), finding("dev")),
        CandleError::InvalidDeviceIndex(1)
    );
    let mut replies = finding("dev");
    replies.push(Reply::Handle(None));
    assert_eq!(
        open_error(config(0, 0, 500_000), replies),
        native(CandleErr::CreateFile, "dev_open")
    );
    let opened = || {
        let mut replies = finding("dev");
        replies.extend(opening());
        replies.extend(open_events());
        replies
    };
    assert_eq!(open_error(config(0, 2, 500_000), opened()), CandleError::InvalidChannel(2));
    assert_eq!(
        open_error(config(0, 0, 500_001), opened()),
        native(CandleErr::BitrateUnsupported, "channel_set_bitrate")
    );
    let mut replies = opened();
    replies.push(transfer(false, &[0; 20]));
    assert_eq!(
        open_error(config(0, 0, 500_000), replies),
        native(CandleErr::SetBittiming, "channel_set_bitrate")
    );
    let mut replies = opened();
    replies.push(transfer(true, &[0; 20]));
    replies.push(transfer(false, &[0; 8]));
    assert_eq!(
        open_error(config(0, 0, 500_000), replies),
        native(CandleErr::SetDeviceMode, "channel_start")
    );
}

#[test]
fn device_opens_by_its_place() {
    let (mut session, start) = open_device(0);
    let mut replies = finding("dev");
    replies.extend(opening());
    replies.extend(open_events());
    let (op, _) = run(start, &mut session, &replies);
    assert!(matches!(op, OpenDevice::Finished { result: Ok(()) }));
    let (mut session, start) = open_device(0);
    let (op, _) = run(start, &mut session, &finding("dev"));
    assert!(matches!(op, OpenDevice::Opening(_)));
    assert_eq!(session.list.num_devices, 1);
    assert_eq!(CandleList::default().num_devices, 0);
}

fn message() -> CanMessage {
    CanMessage { data: [1, 2, 0, 0, 0, 0, 0, 0], dlc: 2, rtr: false, id: CanId::Std(0x10) }
}

#[test]
fn message_is_sent() {
    let mut dev = CandleDevice::default();
    let start = send_frame(Some(&dev), 1, &message());
    let (op, made) = run(start, &mut dev, &[status(true)]);
    let frame = message_to_frame(&message(), 1);
    assert_eq!(made, vec![Request::WritePipe { usb: 0, pipe: 0, frame }]);
    assert!(send_frame_result(op.outcome() == Some(true), Some(&dev), message()).is_ok());
    let start = send_frame(Some(&dev), 1, &message());
    run(start, &mut dev, &[status(false)]);
    let e = send_frame_result(false, Some(&dev), message()).unwrap_err();
    assert_eq!(e.message(), "send failed: SendFrame");
    assert_eq!(e.into_can_message(), message());
    let e = send_frame_result(false, None, message()).unwrap_err();
    assert_eq!(e.message(), "send failed: Unknown");
    assert_eq!(send_frame(None, 1, &message()).outcome(), Some(false));
}

#[test]
fn message_is_received() {
    let mut dev = CandleDevice::default();
    let frame = message_to_frame(&message(), 0);
    assert_eq!(read_frame(true, Some(&dev), &frame), Ok(Some(message())));
    let bad = CandleFrame { can_id: CANDLE_ID_ERR | 3, can_dlc: 200, ..frame };
    assert_eq!(
        read_frame(true, Some(&dev), &bad),
        Err(ReceiveError::CanError { source: CanError::Other })
    );
    dev.last_error = CandleErr::ReadTimeout;
    assert_eq!(read_frame(false, Some(&dev), &frame), Ok(None));
    dev.last_error = CandleErr::ReadSize;
    assert_eq!(
        read_frame(false, Some(&dev), &frame),
        Err(ReceiveError::NativeError { code: CandleErr::ReadSize })
    );
    assert_eq!(
        read_frame(false, None, &frame),
        Err(ReceiveError::NativeError { code: CandleErr::Unknown })
    );
}

#[test]
fn closing_releases_what_opening_got() {
    let mut dev = CandleDevice::default();
    let mut replies = opening();
    replies.extend(open_events());
    let start = candle_dev_open(Some(&dev));
    run(start, &mut dev, &replies);
    let answers: Vec<Reply> = (0..32).map(|_| Reply::Done).collect();
    let start = candle_dev_close(Some(&dev));
    let (op, made) = run(start, &mut dev, &answers);
    assert_eq!(op.outcome(), Some(true));
    for urb in 0..30usize {
        assert_eq!(made[urb], Request::CloseHandle { handle: 1000 + urb as isize });
    }
    assert_eq!(made[30], Request::FreeInterface { usb: 200 });
    assert_eq!(made[31], Request::CloseHandle { handle: 100 });
    assert_eq!((dev.device_handle, dev.winusb_handle), (0, 0));
}

#[test]
fn sent_message_comes_back() {
    for id in [CanId::Std(0x7FF), CanId::Extended(0x1FFF_FFFF)] {
        for rtr in [false, true] {
            let sent = CanMessage {
                data: if rtr { [0; 8] } else { [9, 8, 7, 0, 0, 0, 0, 0] },
                dlc: if rtr { 0 } else { 3 },
                rtr,
                id,
            };
            let mut dev = CandleDevice::default();
            let start = send_frame(Some(&dev), 0, &sent);
            let (_, made) = run(start, &mut dev, &[status(true)]);
            let written = match made[0] {
                Request::WritePipe { frame, .. } => frame,
                _ => panic!("not a write"),
            };
            let replies = [
                Reply::Wait(3),
                Reply::Overlapped { transferred: Some(24), buffer: buffer(&written) },
                reading(),
            ];
            let start = candle_frame_read(Some(&dev), 10);
            let (op, _) = run(start, &mut dev, &replies);
            match op {
                FrameRead::Finished { ok: true, read: Some(frame) } => {
                    assert_eq!(read_frame(true, Some(&dev), &frame), Ok(Some(sent)));
                }
                _ => panic!("no frame"),
            }
        }
    }
}
