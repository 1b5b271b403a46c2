use cyphal_service::transport::can_gsusb::{
    compute_bittiming, is_node_id, parse_hex_u16, read_bt_const, select_device,
    set_bittiming_payload, set_mode_payload, CanFrame, GsDeviceBittiming, GsDeviceBtConst,
    GsUsbDriver, GsUsbError, GS_CAN_EFF_FLAG, GS_CAN_ERR_FLAG, GS_CAN_RTR_FLAG, GS_HOST_FRAME_SIZE,
    UsbError,
};

fn candlelight() -> GsDeviceBtConst {
    // Simulate a 48 MHz candleLight device.
    GsDeviceBtConst {
        feature: 0,
        fclk_can: 48_000_000,
        tseg1_min: 1,
        tseg1_max: 16,
        tseg2_min: 1,
        tseg2_max: 8,
        sjw_max: 4,
        brp_min: 1,
        brp_max: 512,
        brp_inc: 1,
    }
}

fn frame(id: u32, data: &[u8]) -> CanFrame {
    CanFrame {
        timestamp: 1000,
        id,
        data: data.to_vec(),
    }
}

#[test]
fn test_encode_decode_roundtrip() {
    // priority=4 (Nominal), subject_id=7509, source=42
    let raw_id: u32 = (4 << 26) | (7509 << 8) | 42;
    let data = [0x01u8, 0x02, 0x03, 0x04, 0xe0];
    let frame = frame(raw_id, &data);

    let encoded = GsUsbDriver::encode_frame(&frame, 42);

    // Check echo_id
    assert_eq!(u32::from_le_bytes(encoded[0..4].try_into().unwrap()), 42);

    // can_id should have EFF flag set
    let can_id = u32::from_le_bytes(encoded[4..8].try_into().unwrap());
    assert!(can_id & GS_CAN_EFF_FLAG != 0);
    assert_eq!(can_id & 0x1FFF_FFFF, raw_id);

    // dlc
    assert_eq!(encoded[8], data.len() as u8);

    // Decode
    let decoded = GsUsbDriver::decode_frame(&encoded, 2000);
    let decoded = decoded.expect("decode should succeed");
    assert_eq!(decoded.data, data);
    assert_eq!(decoded.id, raw_id);
    assert_eq!(decoded.timestamp, 2000);
}

#[test]
fn test_frame_layout() {
    let encoded = GsUsbDriver::encode_frame(&frame(0x0102_0304, &[9, 8, 7]), 0xA0B0_C0D0);
    assert_eq!(
        encoded,
        vec![
            0xD0, 0xC0, 0xB0, 0xA0, 4, 3, 2, 0x81, 3, 0, 0, 0, 9, 8, 7, 0, 0, 0, 0, 0
        ]
    );
    assert_eq!(encoded.len(), GS_HOST_FRAME_SIZE);
}

#[test]
fn test_decode_refuses_other_frames() {
    let good = GsUsbDriver::encode_frame(&frame(5, &[1]), 0);
    assert!(GsUsbDriver::decode_frame(&good, 0).is_some());
    assert!(GsUsbDriver::decode_frame(&good[..19], 0).is_none());
    for flag in [GS_CAN_RTR_FLAG, GS_CAN_ERR_FLAG] {
        let mut bad = good.clone();
        bad[7] |= flag.to_le_bytes()[3];
        assert!(GsUsbDriver::decode_frame(&bad, 0).is_none());
    }
    let mut standard = good.clone();
    standard[7] &= !GS_CAN_EFF_FLAG.to_le_bytes()[3];
    assert!(GsUsbDriver::decode_frame(&standard, 0).is_none());
}

#[test]
fn test_decode_takes_at_most_eight_bytes() {
    let mut buf = GsUsbDriver::encode_frame(&frame(5, &[1, 2, 3, 4, 5, 6, 7, 8]), 0);
    buf[8] = 200;
    let decoded = GsUsbDriver::decode_frame(&buf, 0).unwrap();
    assert_eq!(decoded.data, vec![1, 2, 3, 4, 5, 6, 7, 8]);
}

#[test]
fn test_transmit_counts_and_drops_late_frames() {
    let mut driver = GsUsbDriver::new();
    let first = driver.transmit(&frame(5, &[]), 1000).unwrap();
    assert_eq!(first[0..4], [0, 0, 0, 0]);
    let second = driver.transmit(&frame(5, &[]), 900).unwrap();
    assert_eq!(second[0..4], [1, 0, 0, 0]);
    // The deadline has passed.
    assert!(driver.transmit(&frame(5, &[]), 1001).is_none());
    // A time before the clock wrapped around.
    assert!(driver.transmit(&frame(5, &[]), 0xFFFF_FF00).is_some());
    let third = driver.transmit(&frame(5, &[]), 1000).unwrap();
    assert_eq!(third[0..4], [3, 0, 0, 0]);
}

#[test]
fn test_parse_hex_u16() {
    assert_eq!(parse_hex_u16("0x1d50"), Some(0x1d50));
    assert_eq!(parse_hex_u16("0X606F"), Some(0x606f));
    assert_eq!(parse_hex_u16("606f"), Some(0x606f));
    assert_eq!(parse_hex_u16("gggg"), None);
}

#[test]
fn test_parse_hex_u16_edges() {
    assert_eq!(parse_hex_u16(" \t0xffff\n"), Some(0xffff));
    assert_eq!(parse_hex_u16("0x10000"), None);
    assert_eq!(parse_hex_u16("0x"), None);
    assert_eq!(parse_hex_u16(""), None);
    assert_eq!(parse_hex_u16("+1d"), Some(0x1d));
    assert_eq!(parse_hex_u16("0x0x1"), None);
}

#[test]
fn test_compute_bittiming_1mbit() {
    let bt = candlelight();
    let timing = compute_bittiming(1_000_000, &bt).expect("should find bittiming for 1 Mbit/s");
    let actual =
        bt.fclk_can / timing.brp / (1 + timing.prop_seg + timing.phase_seg1 + timing.phase_seg2);
    assert_eq!(actual, 1_000_000);
}

#[test]
fn test_compute_bittiming_is_the_first_fit() {
    let timing = compute_bittiming(1_000_000, &candlelight()).unwrap();
    // The longest first segment that fits is tried first.
    assert_eq!(timing.prop_seg, 8);
    assert_eq!(timing.phase_seg1, 8);
    assert_eq!(timing.phase_seg2, 7);
    assert_eq!(timing.brp, 2);
    assert_eq!(timing.sjw, 1);
}

#[test]
fn test_compute_bittiming_unsupported() {
    assert!(compute_bittiming(7, &candlelight()).is_none());
    let mut slow = candlelight();
    slow.fclk_can = 1000;
    assert!(compute_bittiming(1_000_000, &slow).is_none());
}

#[test]
fn test_select_device() {
    // The descriptor of the first device cannot be read.
    let devices = vec![
        None,
        Some((0x1d50u16, 0x606fu16)),
        Some((0x1234, 0x5678)),
        Some((0x1d50, 0x5740)),
        Some((0x04d8, 0x0053)),
        Some((0x1d50, 0x606f)),
    ];
    assert_eq!(select_device(&devices, 0, None, None), Some(1));
    assert_eq!(select_device(&devices, 1, None, None), Some(3));
    assert_eq!(select_device(&devices, 3, None, None), Some(5));
    assert_eq!(select_device(&devices, 4, None, None), None);
    assert_eq!(select_device(&devices, 0, Some(0x1234), None), Some(2));
    assert_eq!(
        select_device(&devices, 1, Some(0x1d50), Some(0x606f)),
        Some(5)
    );
    // A product ID alone picks among the known adapters.
    assert_eq!(select_device(&devices, 0, None, Some(0x5740)), Some(3));
    assert_eq!(select_device(&devices, 1, None, Some(0x606f)), Some(5));
    assert_eq!(select_device(&devices, 2, None, Some(0x606f)), None);
    assert_eq!(select_device(&devices, 0, None, Some(0x5678)), None);
}

#[test]
fn test_control_payloads() {
    let timing = GsDeviceBittiming {
        prop_seg: 1,
        phase_seg1: 2,
        phase_seg2: 3,
        sjw: 4,
        brp: 0x0102_0304,
    };
    assert_eq!(
        set_bittiming_payload(&timing),
        vec![1, 0, 0, 0, 2, 0, 0, 0, 3, 0, 0, 0, 4, 0, 0, 0, 4, 3, 2, 1]
    );
    assert_eq!(set_mode_payload(5), vec![5, 0, 0, 0, 0, 0, 0, 0]);

    let mut buf: Vec<u8> = Vec::new();
    for v in 1u32..=10 {
        buf.extend_from_slice(&v.to_le_bytes());
    }
    assert!(read_bt_const(&buf[..39]).is_none());
    let bt = read_bt_const(&buf).unwrap();
    assert_eq!(bt.feature, 1);
    assert_eq!(bt.fclk_can, 2);
    assert_eq!(bt.tseg1_max, 4);
    assert_eq!(bt.brp_inc, 10);
}

#[test]
fn test_can_node_ids() {
    assert!(is_node_id(0));
    assert!(is_node_id(127));
    assert!(!is_node_id(128));
}

#[test]
fn test_errors_in_words() {
    assert_eq!(GsUsbError::InvalidFrame.message(), "Invalid CAN frame");
    assert_eq!(
        GsUsbError::UnsupportedBitrate(7).message(),
        "Unsupported bitrate: 7"
    );
    assert_eq!(
        GsUsbError::from(UsbError::Busy).message(),
        "USB error: Resource busy"
    );
    let kinds = [
        (UsbError::Io, rusb::Error::Io, "Input/Output Error"),
        (UsbError::InvalidParam, rusb::Error::InvalidParam, "Invalid parameter"),
        (UsbError::Access, rusb::Error::Access, "Access denied (insufficient permissions)"),
        (UsbError::NoDevice, rusb::Error::NoDevice, "No such device (it may have been disconnected)"),
        (UsbError::NotFound, rusb::Error::NotFound, "Entity not found"),
        (UsbError::Busy, rusb::Error::Busy, "Resource busy"),
        (UsbError::Timeout, rusb::Error::Timeout, "Operation timed out"),
        (UsbError::Overflow, rusb::Error::Overflow, "Overflow"),
        (UsbError::Pipe, rusb::Error::Pipe, "Pipe error"),
        (UsbError::Interrupted, rusb::Error::Interrupted, "System call interrupted (perhaps due to signal)"),
        (UsbError::NoMem, rusb::Error::NoMem, "Insufficient memory"),
        (UsbError::NotSupported, rusb::Error::NotSupported, "Operation not supported or unimplemented on this platform"),
        (UsbError::BadDescriptor, rusb::Error::BadDescriptor, "Malformed descriptor"),
        (UsbError::Other, rusb::Error::Other, "Other error"),
    ];
    for (kind, error, words) in kinds {
        assert_eq!(error.to_string(), words);
        assert_eq!(
            GsUsbError::Usb(kind).message(),
            format!("USB error: {error}")
        );
    }
}

#[test]
fn test_receive_reports_invalid_frames() {
    let good = GsUsbDriver::encode_frame(&frame(5, &[1]), 0);
    assert_eq!(GsUsbDriver::receive(&good, 9).unwrap().data, vec![1]);
    assert!(matches!(
        GsUsbDriver::receive(&good[..5], 9),
        Err(GsUsbError::InvalidFrame)
    ));
}

#[test]
fn test_choices_when_opening() {
    let devices = vec![Some((0x1d50u16, 0x606fu16))];
    assert!(matches!(
        GsUsbDriver::choose_device(&devices, 0, None, None),
        Ok(0)
    ));
    assert!(matches!(
        GsUsbDriver::choose_device(&devices, 1, None, None),
        Err(GsUsbError::Usb(UsbError::NotFound))
    ));
    // Another product than the one attached.
    let other = vec![Some((0x1d50u16, 0x5740u16))];
    assert!(matches!(
        GsUsbDriver::choose_device(&other, 0, None, Some(0x606f)),
        Err(GsUsbError::Usb(UsbError::NotFound))
    ));

    let mut reply: Vec<u8> = Vec::new();
    for v in [0u32, 48_000_000, 1, 16, 1, 8, 4, 1, 512, 1] {
        reply.extend_from_slice(&v.to_le_bytes());
    }
    assert_eq!(GsUsbDriver::choose_timing(&reply, 1_000_000).unwrap().brp, 2);
    assert!(matches!(
        GsUsbDriver::choose_timing(&reply, 7),
        Err(GsUsbError::UnsupportedBitrate(7))
    ));
    assert!(matches!(
        GsUsbDriver::choose_timing(&reply[..39], 1_000_000),
        Err(GsUsbError::Usb(UsbError::Other))
    ));
}
