use shdlc_driver::connection::validate_response;
use shdlc_driver::device::{apply_registered_errors, driver_slave_address};
use shdlc_driver::protocol::errors::ShdlcError;
use shdlc_driver::protocol::text::hex_encode;
use shdlc_driver::protocol::time::Duration;
use shdlc_driver::protocol::{
    calculate_checksum, interpret_checked_response, stuff_data_bytes, unstuff_data_bytes,
    DeviceReset, EnterBootloader, FirmwareUpdateData, FirmwareUpdateStart, FirmwareUpdateStop,
    GetArticleCode, GetErrorState, GetProductName, GetReplyDelay, GetSerialNumber,
    GetSlaveAddress, GetSystemUpTime, RawShdlcCommand, SetReplyDelay, SetSlaveAddress,
    ShdlcCommand, ShdlcMisoFrame, ShdlcMisoFrameBuilder, START_STOP_BYTE,
};
use shdlc_driver::transport::ShdlcTransceiver;
use std::collections::HashMap;

fn make_response_frame(slave_addr: u8, cmd_id: u8, state: u8, data: &[u8]) -> Vec<u8> {
    let mut content = vec![slave_addr, cmd_id, state, data.len() as u8];
    content.extend_from_slice(data);
    let checksum = calculate_checksum(&content);
    content.push(checksum);
    let stuffed = stuff_data_bytes(&content);
    let mut raw = vec![START_STOP_BYTE];
    raw.extend_from_slice(&stuffed);
    raw.push(START_STOP_BYTE);
    raw
}

#[test]
fn test_stuffing_roundtrip() {
    let data: Vec<u8> = (0..=255u8).collect();
    let stuffed = stuff_data_bytes(&data);
    assert!(!stuffed.contains(&START_STOP_BYTE));
    assert_eq!(stuffed.len(), 256 + 4);
    assert_eq!(unstuff_data_bytes(&stuffed), data);
    assert_eq!(stuff_data_bytes(&[0x7E, 0x7D, 0x11, 0x13]), vec![0x7D, 0x5E, 0x7D, 0x5D, 0x7D, 0x31, 0x7D, 0x33]);
}

#[test]
fn test_checksum_completes_frame() {
    let content = [0x01u8, 0xD0, 0x00, 0x03, 0x41, 0x42, 0x43];
    let ck = calculate_checksum(&content);
    let total: u32 = content.iter().map(|&b| b as u32).sum::<u32>() + ck as u32;
    assert_eq!(total % 256, 255);
}

#[test]
fn test_encoded_response_decodes() {
    let data: Vec<u8> = (0..255u8).rev().collect();
    let raw = make_response_frame(0x7E, 0x7D, 0x13, &data);
    assert!(raw.len() <= 522);
    let mut builder = ShdlcMisoFrameBuilder::new();
    assert_eq!(builder.add_data(&raw[..3]), Ok(false));
    assert_eq!(builder.add_data(&raw[3..]), Ok(true));
    assert_eq!(builder.data(), &raw[..]);
    let frame = builder.interpret_data().unwrap();
    assert_eq!(frame.slave_address, 0x7E);
    assert_eq!(frame.command_id, 0x7D);
    assert_eq!(frame.state, 0x13);
    assert_eq!(frame.data, data);
}

#[test]
fn test_builder_errors() {
    let mut builder = ShdlcMisoFrameBuilder::new();
    let long = vec![0x00u8; 523];
    match builder.add_data(&long) {
        Err(ShdlcError::ResponseError { message, raw_data }) => {
            assert_eq!(message, "Response is too long.");
            assert_eq!(raw_data, Some(long.clone()));
        }
        other => panic!("unexpected {:?}", other),
    }

    let mut builder = ShdlcMisoFrameBuilder::default();
    builder.add_data(b"\x7e\x00\x00\x7e").unwrap();
    match builder.interpret_data() {
        Err(ShdlcError::ResponseError { message, .. }) => assert_eq!(message, "Response is too short."),
        other => panic!("unexpected {:?}", other),
    }

    let mut builder = ShdlcMisoFrameBuilder::new();
    builder.add_data(b"\x7e\x00\x00\x00\x02\xfd\x7e").unwrap();
    match builder.interpret_data() {
        Err(ShdlcError::ResponseError { message, .. }) => assert_eq!(message, "Wrong length."),
        other => panic!("unexpected {:?}", other),
    }

    let builder = ShdlcMisoFrameBuilder::new();
    assert!(builder.interpret_data().is_err());
}

#[test]
fn test_error_state_bits() {
    let frame = ShdlcMisoFrame { slave_address: 0, command_id: 0, state: 0x83, data: vec![] };
    assert!(frame.is_error_state());
    assert_eq!(frame.error_code(), 3);
}

#[test]
fn test_command_encodings() {
    assert_eq!(SetReplyDelay::new(0x1234).data(), vec![0x12, 0x34]);
    assert_eq!(GetReplyDelay.interpret_response(&[0x00, 0x32]), Ok(50));
    assert_eq!(GetSystemUpTime.interpret_response(&[0x00, 0x00, 0x04, 0xD2]), Ok(1234));
    assert_eq!(SetSlaveAddress::new(7).data(), vec![7]);
    assert_eq!(GetSlaveAddress.interpret_response(&[9]), Ok(9));
    assert_eq!(GetErrorState::new(false).data(), vec![0x00]);
    assert_eq!(GetErrorState::default().data(), vec![0x01]);
    assert_eq!(FirmwareUpdateStart.data(), vec![0x01]);
    assert_eq!(FirmwareUpdateData::new(&[9, 8]).data(), vec![0x02, 9, 8]);
    assert_eq!(FirmwareUpdateStop::new(0x85).data(), vec![0x03, 0x85]);
    assert_eq!(EnterBootloader.id(), 0xF3);
    assert_eq!(EnterBootloader.post_processing_time().as_nanos(), 2_000_000_000);
    assert_eq!(FirmwareUpdateStart.max_response_time().as_nanos(), 20_000_000_000);
    assert_eq!(DeviceReset.id(), 0xD3);
    assert_eq!(DeviceReset.max_response_length(), 0);
    assert_eq!(GetProductName.data(), vec![0x01]);
    assert_eq!(GetArticleCode.data(), vec![0x02]);
    assert_eq!(GetSerialNumber.interpret_response(b"12345678\0\0"), Ok("12345678".to_string()));
    assert_eq!(GetProductName.interpret_response(b"SHT31\0"), Ok("SHT31".to_string()));
}

#[test]
fn test_device_text_decoding() {
    // Valid UTF-8 decodes unchanged; only trailing NULs go.
    assert_eq!(
        GetArticleCode.interpret_response("Sensor \u{00dc}\0x\0\0".as_bytes()),
        Ok("Sensor \u{00dc}\0x".to_string())
    );
    assert_eq!(GetProductName.interpret_response(b""), Ok(String::new()));
    assert_eq!(GetProductName.interpret_response(b"\0\0"), Ok(String::new()));
    // Invalid sequences become U+FFFD.
    assert_eq!(
        GetProductName.interpret_response(&[0x41, 0xFF, 0x42, 0x00]),
        Ok("A\u{fffd}B".to_string())
    );
}

#[test]
fn test_response_length_check() {
    let e = interpret_checked_response(&GetSlaveAddress, &[1, 2]).unwrap_err();
    match e {
        ShdlcError::ResponseError { message, raw_data } => {
            assert_eq!(message, "Wrong response length (expected 1..1 bytes, got 2).");
            assert_eq!(raw_data, Some(vec![1, 2]));
        }
        other => panic!("unexpected {:?}", other),
    }
    assert_eq!(interpret_checked_response(&GetSlaveAddress, &[5]), Ok(5));
    assert!(DeviceReset.check_response_length(&[]).is_ok());
    assert!(DeviceReset.check_response_length(&[1]).is_err());
}

#[test]
fn test_raw_command() {
    let cmd = RawShdlcCommand::new(0xAA, &[1, 2, 3], Duration::from_millis(100));
    assert_eq!(cmd.id(), 0xAA);
    assert_eq!(cmd.data(), vec![1, 2, 3]);
    assert_eq!(cmd.min_response_length(), 0);
    assert_eq!(cmd.max_response_length(), 255);
    assert!(cmd.post_processing_time().is_zero());
    let cmd = cmd.with_response_lengths(2, 4).with_post_processing_time(Duration::from_secs(1));
    assert_eq!(cmd.min_response_length(), 2);
    assert_eq!(cmd.max_response_length(), 4);
    assert_eq!(cmd.post_processing_time().as_nanos(), 1_000_000_000);
    assert_eq!(cmd.max_response_time().as_nanos(), 100_000_000);
    assert_eq!(interpret_checked_response(&cmd, &[7, 8, 9]), Ok(vec![7, 8, 9]));
    assert!(interpret_checked_response(&cmd, &[7]).is_err());
}

#[test]
fn test_validate_response() {
    let ok = ShdlcMisoFrame { slave_address: 1, command_id: 0xD0, state: 0x80, data: vec![4] };
    assert_eq!(validate_response(1, 0xD0, ok), Ok((vec![4], true)));

    let wrong_addr = ShdlcMisoFrame { slave_address: 2, command_id: 0xD0, state: 0, data: vec![4] };
    assert_eq!(
        validate_response(1, 0xD0, wrong_addr),
        Err(ShdlcError::ResponseError {
            message: "Received slave address 2 instead of 1.".to_string(),
            raw_data: Some(vec![4]),
        })
    );

    let wrong_cmd = ShdlcMisoFrame { slave_address: 1, command_id: 0x0A, state: 0, data: vec![] };
    assert_eq!(
        validate_response(1, 0xD0, wrong_cmd),
        Err(ShdlcError::ResponseError {
            message: "Received command ID 0x0A instead of 0xD0.".to_string(),
            raw_data: Some(vec![]),
        })
    );

    let device_err = ShdlcMisoFrame { slave_address: 1, command_id: 0xD0, state: 0x02, data: vec![] };
    match validate_response(1, 0xD0, device_err) {
        Err(ShdlcError::DeviceError { code, message }) => {
            assert_eq!(code, 2);
            assert!(message.contains("Unknown command"));
        }
        other => panic!("unexpected {:?}", other),
    }
}

#[test]
fn test_registered_device_errors() {
    let mut registered = HashMap::new();
    registered.insert(0x21u8, "Sensor busy.".to_string());
    let e = apply_registered_errors(&registered, ShdlcError::device_error(0x21));
    assert_eq!(e, ShdlcError::DeviceError { code: 0x21, message: "Sensor busy.".to_string() });
    let e = apply_registered_errors(&registered, ShdlcError::device_error(5));
    assert_eq!(e, ShdlcError::DeviceError { code: 5, message: "Wrong checksum received.".to_string() });
    assert_eq!(apply_registered_errors(&registered, ShdlcError::Timeout), ShdlcError::Timeout);
}

#[test]
fn test_error_texts() {
    assert_eq!(ShdlcError::device_error(9).to_string(), "SHDLC device returned error code 9: Unknown error.");
    assert_eq!(
        ShdlcError::FirmwareImageSignatureError(vec![0x4B, 0x0F]).to_string(),
        "Invalid signature in firmware image: 0x4B0F"
    );
    assert_eq!(
        ShdlcError::FirmwareImageIncompatibilityError { expected: 0x140000, actual: 0x60000 }.to_string(),
        "Firmware image for device 0x00140000 not compatible with connected device 0x00060000."
    );
    assert_eq!(ShdlcError::Transport("x".to_string()).to_string(), "Transport error: x");
    assert_eq!(ShdlcError::Other("plain".to_string()).to_string(), "plain");
    assert_eq!(ShdlcError::io_failure(true, "t".to_string()), ShdlcError::Timeout);
    assert_eq!(ShdlcError::io_failure(false, "t".to_string()), ShdlcError::Io("t".to_string()));
    assert_eq!(
        ShdlcError::response_error("m".to_string(), None),
        ShdlcError::ResponseError { message: "m".to_string(), raw_data: None }
    );
}

#[test]
fn test_text_helpers() {
    // Decimal numbers as the error and version texts write them.
    assert_eq!(
        ShdlcError::device_error(0).to_string(),
        "SHDLC device returned error code 0: Unknown error."
    );
    assert_eq!(
        ShdlcError::device_error(255).to_string(),
        "SHDLC device returned error code 255: Unknown error."
    );
    assert_eq!(hex_encode(&[0x00, 0xAB, 0x7F]), "00AB7F");
}

#[test]
fn test_maximum_frame_time() {
    // 6000 bits / 115200 bit/s + 0.2 s
    assert_eq!(ShdlcTransceiver::calculate_maximum_frame_time(115200).as_nanos(), 252_083_333);
    assert_eq!(ShdlcTransceiver::calculate_maximum_frame_time(9600).as_nanos(), 825_000_000);
    // 6000 / 7 s = 857.142857142857... s: rounded to the nearest nanosecond.
    assert_eq!(ShdlcTransceiver::calculate_maximum_frame_time(7).as_nanos(), 857_342_857_143);
    // 6000 / 16 s = 375 s exactly.
    assert_eq!(ShdlcTransceiver::calculate_maximum_frame_time(16).as_nanos(), 375_200_000_000);
}

#[test]
fn test_driver_slave_address() {
    assert_eq!(driver_slave_address(0, 7, true), 7);
    assert_eq!(driver_slave_address(0, 7, false), 0);
}

#[test]
fn test_durations() {
    assert_eq!(Duration::from_millis(1500).as_secs(), 1);
    assert_eq!(Duration::from_millis(1500).subsec_nanos(), 500_000_000);
    assert_eq!(Duration::from_secs(u64::MAX).as_nanos(), u64::MAX as u128 * 1_000_000_000);
    assert_eq!(Duration::from_millis(u64::MAX).as_nanos(), u64::MAX as u128 * 1_000_000);
    assert_eq!(Duration::new(1, 2_500_000_000).as_nanos(), 3_500_000_000);
    assert_eq!(Duration::from_nanos(0).is_zero(), true);
    assert_eq!(
        Duration::from_secs(1).checked_add(Duration::from_millis(250)).map(|d| d.as_nanos()),
        Some(1_250_000_000)
    );
    assert_eq!(Duration::from_secs(u64::MAX).checked_add(Duration::from_secs(1)), None);
    assert_eq!(Duration::from_millis(2000), Duration::from_secs(2));
}
