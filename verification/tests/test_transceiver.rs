use shdlc_driver::protocol::time::Duration;
use shdlc_driver::protocol::{
    calculate_checksum, stuff_data_bytes, ShdlcError, ShdlcMisoFrame, ShdlcMosiFrame,
    START_STOP_BYTE,
};
use shdlc_driver::transport::transceiver::{ReceiveAction, ReceiveEvent, ResponseReceiver};
use shdlc_driver::transport::{MockTransport, ShdlcTransceiver};

/// The exchange with a mock transport on a simulated clock that advances by
/// one millisecond per read; a mock that times out on reads takes a minute.
fn transceive_with_mock(
    mock: &mut MockTransport,
    slave_address: u8,
    command_id: u8,
    data: &[u8],
    response_timeout: Duration,
    additional_response_time: Duration,
) -> Result<ShdlcMisoFrame, ShdlcError> {
    let mosi = ShdlcMosiFrame::new(slave_address, command_id, data);
    mock.write_all(&mosi.to_bytes())?;
    let mut rx = ResponseReceiver::new(response_timeout, additional_response_time, mock.bitrate().ok());
    let mut now: u64 = 0;
    loop {
        let remaining = match rx.step(ReceiveEvent::Elapsed(Duration::from_nanos(now))) {
            ReceiveAction::Read(d) => d.as_nanos(),
            ReceiveAction::Finish(r) => return r,
            _ => continue,
        };
        let event = if mock.timeout_on_read() {
            if remaining < 60_000_000_000 {
                ReceiveEvent::ReadTimedOut
            } else {
                ReceiveEvent::ReadFailed(ShdlcError::Timeout)
            }
        } else {
            match mock.take_rx_data(512) {
                Ok(Some(bytes)) => ReceiveEvent::Received(bytes),
                Ok(None) => ReceiveEvent::Received(Vec::new()),
                Err(e) => ReceiveEvent::ReadFailed(e),
            }
        };
        now += 1_000_000;
        if let ReceiveAction::Finish(r) = rx.step(event) {
            return r;
        }
    }
}

#[test]
fn test_mock_transceiver_success() {
    let mut mock = MockTransport::new();

    let mut content = vec![0x00, 0xD0, 0x00, 0x08];
    content.extend_from_slice(b"00000001");
    let checksum = calculate_checksum(&content);
    content.push(checksum);
    let stuffed = stuff_data_bytes(&content);
    let mut raw_response = vec![START_STOP_BYTE];
    raw_response.extend_from_slice(&stuffed);
    raw_response.push(START_STOP_BYTE);

    mock.push_rx_data(&raw_response);

    let miso = transceive_with_mock(
        &mut mock,
        0x00,
        0xD0,
        &[0x00],
        Duration::from_millis(100),
        Duration::from_millis(10),
    )
    .unwrap();

    assert_eq!(miso.slave_address, 0x00);
    assert_eq!(miso.command_id, 0xD0);
    assert_eq!(miso.state, 0x00);
    assert_eq!(miso.data, b"00000001");

    let written = mock.get_written_data();
    assert_eq!(written.len(), 1);
    let mosi = ShdlcMosiFrame::new(0x00, 0xD0, &[0x00]);
    assert_eq!(written[0], mosi.to_bytes());
}

#[test]
fn test_mock_transceiver_timeout() {
    let mut mock = MockTransport::new();
    mock.set_timeout_on_read(true);

    let res = transceive_with_mock(
        &mut mock,
        0x00,
        0x90,
        &[],
        Duration::from_millis(50),
        Duration::from_millis(10),
    );

    assert!(matches!(res, Err(ShdlcError::Timeout)));
}

#[test]
fn test_mock_transceiver_without_response_times_out() {
    let mut mock = MockTransport::new();
    let res = transceive_with_mock(&mut mock, 0x00, 0x90, &[], Duration::from_millis(50), Duration::from_millis(10));
    assert!(matches!(res, Err(ShdlcError::Timeout)));
    assert_eq!(mock.get_written_data().len(), 1);
}

fn read_time(action: ReceiveAction) -> u128 {
    match action {
        ReceiveAction::Read(d) => d.as_nanos(),
        other => panic!("expected a read, got {:?}", other),
    }
}

fn receiver() -> ResponseReceiver {
    ResponseReceiver::new(Duration::from_secs(1), Duration::from_millis(100), Some(115200))
}

#[test]
fn test_receiver_waits_for_response_then_for_frame() {
    let mut rx = receiver();
    // Before a start byte arrived: response time plus additional time.
    assert_eq!(read_time(rx.step(ReceiveEvent::Elapsed(Duration::from_nanos(0)))), 1_100_000_000);
    assert_eq!(read_time(rx.step(ReceiveEvent::Elapsed(Duration::from_millis(600)))), 500_000_000);
    assert!(matches!(rx.step(ReceiveEvent::Received(vec![0x7E, 0x00])), ReceiveAction::Proceed));
    assert_eq!(rx.received(), &[0x7E, 0x00]);
    // Once the frame began: plus the time of the longest frame, 6e12 / 115200 + 2e8 ns.
    assert_eq!(
        read_time(rx.step(ReceiveEvent::Elapsed(Duration::from_nanos(0)))),
        1_100_000_000 + 252_083_333
    );
    assert!(matches!(
        rx.step(ReceiveEvent::Elapsed(Duration::from_nanos(1_352_083_333))),
        ReceiveAction::Finish(Err(ShdlcError::Timeout))
    ));
}

#[test]
fn test_receiver_falls_back_to_default_bitrate() {
    let mut rx = ResponseReceiver::new(Duration::from_nanos(0), Duration::from_nanos(0), None);
    rx.step(ReceiveEvent::Received(vec![0x7E]));
    assert_eq!(
        read_time(rx.step(ReceiveEvent::Elapsed(Duration::from_nanos(0)))),
        ShdlcTransceiver::calculate_maximum_frame_time(115200).as_nanos()
    );
}

#[test]
fn test_receiver_times_out_without_response() {
    let mut rx = receiver();
    assert!(matches!(
        rx.step(ReceiveEvent::Elapsed(Duration::from_millis(1100))),
        ReceiveAction::Finish(Err(ShdlcError::Timeout))
    ));
    assert!(matches!(rx.step(ReceiveEvent::ReadTimedOut), ReceiveAction::Finish(Err(ShdlcError::Timeout))));
}

#[test]
fn test_receiver_decodes_frame_in_chunks() {
    let mut rx = receiver();
    assert!(matches!(rx.step(ReceiveEvent::Received(vec![])), ReceiveAction::Pause));
    assert!(matches!(rx.step(ReceiveEvent::Received(vec![0x7E, 0x7D, 0x5E, 0x7D])), ReceiveAction::Proceed));
    let rest = vec![0x5D, 0x7D, 0x31, 0x03, 0x12, 0x7D, 0x33, 0x14, 0xB7, 0x7E];
    match rx.step(ReceiveEvent::Received(rest)) {
        ReceiveAction::Finish(Ok(frame)) => {
            assert_eq!(frame.slave_address, 0x7E);
            assert_eq!(frame.command_id, 0x7D);
            assert_eq!(frame.state, 0x11);
            assert_eq!(frame.data, vec![0x12, 0x13, 0x14]);
        }
        other => panic!("expected a frame, got {:?}", other),
    }
}

#[test]
fn test_receiver_reports_bad_frames() {
    let mut rx = receiver();
    match rx.step(ReceiveEvent::Received(vec![0x7E, 0x00, 0x00, 0x00, 0x00, 0xFE, 0x7E])) {
        ReceiveAction::Finish(Err(ShdlcError::ResponseError { message, raw_data })) => {
            assert_eq!(message, "Wrong checksum.");
            assert_eq!(raw_data, Some(vec![0x7E, 0x00, 0x00, 0x00, 0x00, 0xFE, 0x7E]));
        }
        other => panic!("expected a checksum error, got {:?}", other),
    }
    let mut rx = receiver();
    assert!(matches!(rx.step(ReceiveEvent::Received(vec![0x7E; 1])), ReceiveAction::Proceed));
    match rx.step(ReceiveEvent::Received(vec![0x00; 522])) {
        ReceiveAction::Finish(Err(ShdlcError::ResponseError { message, .. })) => {
            assert_eq!(message, "Response is too long.");
        }
        other => panic!("expected a length error, got {:?}", other),
    }
}

#[test]
fn test_receiver_passes_read_failures_on() {
    let mut rx = receiver();
    match rx.step(ReceiveEvent::ReadFailed(ShdlcError::Io("broken pipe".to_string()))) {
        ReceiveAction::Finish(Err(ShdlcError::Io(m))) => assert_eq!(m, "broken pipe"),
        other => panic!("expected the read error, got {:?}", other),
    }
}
