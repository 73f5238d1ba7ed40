use candle_zencan_adapter::can::{CanId, CanMessage};
use candle_zencan_adapter::frame::{
    frame_to_message, message_to_frame, CandleFrame, CANDLE_FRAME_SIZE, CANDLE_ID_ERR,
    CANDLE_ID_EXTENDED, CANDLE_ID_RTR,
};
use candle_zencan_adapter::wire::{
    CandleBitTiming, CandleCapability, CandleDeviceConfig, CandleDeviceMode, CandleHostConfig,
    ControlData,
};

fn message(id: CanId, rtr: bool, payload: &[u8]) -> CanMessage {
    let mut data = [0u8; 8];
    data[..payload.len()].copy_from_slice(payload);
    CanMessage { data, dlc: payload.len() as u8, rtr, id }
}

#[test]
fn standard_message_becomes_a_frame() {
    let f = message_to_frame(&message(CanId::Std(0x123), false, &[1, 2, 3]), 2);
    assert_eq!(f.can_id, 0x123);
    assert_eq!(f.can_dlc, 3);
    assert_eq!(f.channel, 2);
    assert_eq!(f.data, [1, 2, 3, 0, 0, 0, 0, 0]);
    assert_eq!((f.echo_id, f.flags, f.reserved, f.timestamp_us), (0, 0, 0, 0));
}

#[test]
fn extended_message_is_flagged() {
    let f = message_to_frame(&message(CanId::Extended(0x1ABCDEF0), false, &[]), 0);
    assert_eq!(f.can_id, 0x1ABCDEF0 | CANDLE_ID_EXTENDED);
}

#[test]
fn request_is_flagged() {
    let f = message_to_frame(&message(CanId::Std(7), true, &[]), 0);
    assert_eq!(f.can_id, 7 | CANDLE_ID_RTR);
    let f = message_to_frame(&message(CanId::Extended(7), true, &[]), 0);
    assert_eq!(f.can_id, 7 | CANDLE_ID_RTR | CANDLE_ID_EXTENDED);
}

#[test]
fn only_the_payload_is_copied() {
    let m = CanMessage { data: [9; 8], dlc: 2, rtr: false, id: CanId::Std(1) };
    assert_eq!(message_to_frame(&m, 0).data, [9, 9, 0, 0, 0, 0, 0, 0]);
}

#[test]
fn messages_survive_their_frames() {
    let ids = [
        CanId::Std(0),
        CanId::Std(0x7FF),
        CanId::Extended(0),
        CanId::Extended(0x7FF),
        CanId::Extended(0x1FFF_FFFF),
    ];
    for id in ids {
        for len in 0..=8usize {
            let m = message(id, false, &[1, 2, 3, 4, 5, 6, 7, 8][..len]);
            let f = message_to_frame(&m, 1);
            let mut wire = f.to_bytes();
            assert_eq!(wire.len(), CANDLE_FRAME_SIZE);
            wire.resize(128, 0xAA);
            let g = CandleFrame::from_bytes(&wire);
            assert_eq!(g, f);
            assert!(g.is_readable());
            assert_eq!(frame_to_message(&g), m);
        }
        let m = message(id, true, &[]);
        assert_eq!(frame_to_message(&message_to_frame(&m, 1)), m);
    }
}

#[test]
fn request_loses_its_payload() {
    let m = message(CanId::Std(3), true, &[1, 2]);
    let f = message_to_frame(&m, 0);
    assert_eq!(f.can_dlc, 2);
    assert_eq!(frame_to_message(&f), message(CanId::Std(3), true, &[]));
}

#[test]
fn identifiers_are_masked() {
    let f = CandleFrame { can_id: 0x1FFF_FFFF, ..CandleFrame::default() };
    assert_eq!(frame_to_message(&f).id, CanId::Std(0x7FF));
    let f = CandleFrame { can_id: CANDLE_ID_EXTENDED | 0x1000_0001, ..CandleFrame::default() };
    assert_eq!(frame_to_message(&f).id, CanId::Extended(0x1000_0001));
}

#[test]
fn frame_layout() {
    let f = CandleFrame {
        echo_id: 0x0403_0201,
        can_id: 0x0807_0605,
        can_dlc: 9,
        channel: 10,
        flags: 11,
        reserved: 12,
        data: [13, 14, 15, 16, 17, 18, 19, 20],
        timestamp_us: 0x1817_1615,
    };
    let bytes: Vec<u8> = (1..=24).collect();
    assert_eq!(f.to_bytes(), bytes);
    assert_eq!(CandleFrame::from_bytes(&bytes), f);
}

#[test]
fn long_frames_cannot_be_read() {
    let f = CandleFrame { can_dlc: 9, ..CandleFrame::default() };
    assert!(!f.is_readable());
    assert!(CandleFrame { can_id: CANDLE_ID_ERR, ..f }.is_readable());
    assert!(CandleFrame { can_id: CANDLE_ID_RTR, ..f }.is_readable());
}

#[test]
fn messages_know_whether_they_are_sound() {
    assert!(message(CanId::Std(1), false, &[0; 8]).is_wf());
    assert!(!CanMessage { data: [0; 8], dlc: 9, rtr: false, id: CanId::Std(1) }.is_wf());
}

#[test]
fn control_data_layouts() {
    let d = ControlData::HostFormat(CandleHostConfig { byte_order: 0xbeef });
    assert_eq!(d.to_bytes(), vec![0xef, 0xbe, 0, 0]);
    let d = ControlData::Mode(CandleDeviceMode { mode: 1, flags: 0x10 });
    assert_eq!(d.to_bytes(), vec![1, 0, 0, 0, 0x10, 0, 0, 0]);
    let d = ControlData::Timing(CandleBitTiming {
        prop_seg: 1,
        phase_seg1: 2,
        phase_seg2: 3,
        sjw: 4,
        brp: 0x0102_0305,
    });
    assert_eq!(
        d.to_bytes(),
        vec![1, 0, 0, 0, 2, 0, 0, 0, 3, 0, 0, 0, 4, 0, 0, 0, 5, 3, 2, 1]
    );
    assert_eq!(ControlData::Timestamp(0x0403_0201).to_bytes(), vec![1, 2, 3, 4]);
    for (d, n) in [
        (ControlData::Config(CandleDeviceConfig::default()), 12),
        (ControlData::Capability(CandleCapability::default()), 40),
        (ControlData::Timestamp(5), 4),
    ] {
        assert_eq!(d.len(), n);
        assert_eq!(d.to_bytes().len(), n as usize);
    }
}

#[test]
fn control_data_is_filled() {
    let config = CandleDeviceConfig {
        reserved1: 1,
        reserved2: 2,
        reserved3: 3,
        icount: 4,
        sw_version: 0x0807_0605,
        hw_version: 0x0C0B_0A09,
    };
    let bytes: Vec<u8> = (1..=12).collect();
    let held = ControlData::Config(CandleDeviceConfig::default());
    assert_eq!(held.fill(&bytes), ControlData::Config(config));
    assert_eq!(ControlData::Config(config).to_bytes(), bytes);

    let bytes: Vec<u8> = (1..=40).collect();
    let held = ControlData::Capability(CandleCapability::default());
    let filled = held.fill(&bytes);
    assert_eq!(filled.to_bytes(), bytes);
    match filled {
        ControlData::Capability(c) => {
            assert_eq!(c.feature, 0x0403_0201);
            assert_eq!(c.fclk_can, 0x0807_0605);
            assert_eq!(c.brp_inc, 0x2827_2625);
        }
        _ => panic!("not a capability"),
    }

    assert_eq!(ControlData::Timestamp(0).fill(&[4, 3, 2, 1]), ControlData::Timestamp(0x0102_0304));
    let sent = ControlData::HostFormat(CandleHostConfig { byte_order: 7 });
    assert_eq!(sent.fill(&[1, 1, 1, 1]), sent);
}
