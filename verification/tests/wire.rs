use idasen::error::DeskError;
use idasen::wire::{
    decode_reading, find_characteristic, Payload, Reading, UUID_ADV_SVC, UUID_COMMAND, UUID_DPG,
    UUID_HEIGHT, UUID_REFERENCE_INPUT,
};

#[test]
fn payloads_are_spelled_as_desks_expect() {
    assert_eq!(Payload::WakeUp.bytes(), [0xFE, 0x00]);
    assert_eq!(Payload::Stop.bytes(), [0xFF, 0x00]);
    assert_eq!(Payload::ReferenceInputStop.bytes(), [0x01, 0x80]);
    assert_eq!(Payload::DpgOpen.bytes(), b"\x7f\x86\x00");
    assert_eq!(
        Payload::DpgSetup.bytes(),
        b"\x7f\x86\x80\x01\x02\x03\x04\x05\x06\x07\x08\x09\x0a\x0b\x0c\x0d\x0e\x0f\x10\x11"
    );
}

#[test]
fn heights_are_sent_with_the_low_byte_first() {
    assert_eq!(Payload::MoveTo(0x1234).bytes(), [0x34, 0x12]);
    assert_eq!(Payload::MoveTo(0).bytes(), [0, 0]);
    assert_eq!(Payload::MoveTo(6500).bytes(), [0x64, 0x19]);
    for raw in 0..=u16::MAX {
        let mut report = Payload::MoveTo(raw).bytes();
        report.push(0);
        report.push(0);
        assert_eq!(decode_reading(&report), Ok(Reading { height_raw: raw, speed_raw: 0 }));
    }
}

#[test]
fn reports_are_decoded() {
    assert_eq!(
        decode_reading(&[0x14, 0x05, 0x40, 0x01]),
        Ok(Reading { height_raw: 1300, speed_raw: 320 })
    );
    assert_eq!(
        decode_reading(&[0xff, 0xff, 0xff, 0xff]),
        Ok(Reading { height_raw: 65535, speed_raw: -1 })
    );
    assert_eq!(
        decode_reading(&[0x00, 0x80, 0x00, 0x80]),
        Ok(Reading { height_raw: 0x8000, speed_raw: -32768 })
    );
    let reading = decode_reading(&[0x14, 0x05, 0xc0, 0xfe]).unwrap();
    assert_eq!(f64::from_bits(reading.height().bits), 0.75);
    assert_eq!(f64::from_bits(reading.speed().bits), -0.032);
}

#[test]
fn reports_of_another_length_are_refused() {
    let empty: [u8; 0] = [];
    assert_eq!(decode_reading(&empty), Err(DeskError::InvalidHeightData));
    assert_eq!(decode_reading(&[1, 2, 3]), Err(DeskError::InvalidHeightData));
    assert_eq!(decode_reading(&[1, 2, 3, 4, 5]), Err(DeskError::InvalidHeightData));
}

#[test]
fn the_first_matching_characteristic_is_found() {
    let known = [UUID_COMMAND, UUID_HEIGHT, UUID_DPG, UUID_HEIGHT];
    assert_eq!(find_characteristic(&known, UUID_HEIGHT), Ok(1));
    assert_eq!(find_characteristic(&known, UUID_COMMAND), Ok(0));
    assert_eq!(
        find_characteristic(&known, UUID_REFERENCE_INPUT),
        Err(DeskError::CharacteristicMissing(UUID_REFERENCE_INPUT))
    );
    assert_eq!(
        find_characteristic(&[], UUID_ADV_SVC),
        Err(DeskError::CharacteristicMissing(UUID_ADV_SVC))
    );
}

#[test]
fn errors_have_their_words() {
    let words = |error: DeskError| error.text("AA:BB").unwrap();
    assert_eq!(words(DeskError::NoAdapter), "No Bluetooth adapter found");
    assert_eq!(words(DeskError::ScanNotStarted), "Failed to start scan");
    assert_eq!(words(DeskError::DiscoveryTimeout), "Timeout waiting for device discovery");
    assert_eq!(
        words(DeskError::DeskNotFound),
        "Desk with ID AA:BB not found. You may need to run 'init' again to rediscover the device."
    );
    assert_eq!(words(DeskError::ConnectionFailed), "Failed to connect to desk");
    assert_eq!(
        words(DeskError::CharacteristicMissing(UUID_HEIGHT)),
        "Characteristic 99fa0021-338a-1024-8a49-009c0215f78a not found"
    );
    assert_eq!(
        words(DeskError::CharacteristicMissing(0x00000001_0203_0405_abcd_ef0000000009)),
        "Characteristic 00000001-0203-0405-abcd-ef0000000009 not found"
    );
    assert_eq!(words(DeskError::InvalidHeightData), "Invalid height data length");
    assert_eq!(
        words(DeskError::TargetOutOfRange),
        format!("Target height must be between {} and {} meters", 0.62f64, 1.27f64)
    );
    assert_eq!(words(DeskError::DeviceIdMissing), "Device ID not configured");
    assert_eq!(
        words(DeskError::DeviceIdMissingForPairing),
        "Device ID not configured. Run 'init' or provide --device-id"
    );
    assert_eq!(DeskError::Outside.text("AA:BB"), None);
}

#[test]
fn some_errors_go_on_top_of_others() {
    assert!(DeskError::ScanNotStarted.has_cause());
    assert!(DeskError::DiscoveryTimeout.has_cause());
    assert!(DeskError::ConnectionFailed.has_cause());
    assert!(DeskError::Outside.has_cause());
    assert!(!DeskError::NoAdapter.has_cause());
    assert!(!DeskError::DeskNotFound.has_cause());
    assert!(!DeskError::CharacteristicMissing(0).has_cause());
    assert!(!DeskError::TargetOutOfRange.has_cause());
}
