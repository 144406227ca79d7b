use shdlc_driver::protocol::errors::ShdlcError;
use shdlc_driver::protocol::time::Duration;
use shdlc_driver::transport::MockTransport;

#[test]
fn test_mock_transport_bitrate() {
    let mut mock = MockTransport::with_bitrate(9600);
    assert_eq!(mock.bitrate().unwrap(), 9600);
    mock.set_bitrate(115200).unwrap();
    assert_eq!(mock.bitrate().unwrap(), 115200);

    mock.set_support_bitrate_change(false);
    assert!(mock.set_bitrate(9600).is_err());
}

#[test]
fn test_mock_reads_in_order_and_splits_chunks() {
    let mut mock = MockTransport::new();
    assert_eq!(mock.take_rx_data(16), Ok(None));
    mock.push_rx_data(&[1, 2, 3, 4, 5]);
    mock.push_rx_data(&[]);
    mock.push_rx_data(&[6]);
    assert_eq!(mock.take_rx_data(2), Ok(Some(vec![1, 2])));
    assert_eq!(mock.take_rx_data(16), Ok(Some(vec![3, 4, 5])));
    assert_eq!(mock.take_rx_data(16), Ok(Some(vec![])));
    assert_eq!(mock.take_rx_data(16), Ok(Some(vec![6])));
    assert_eq!(mock.take_rx_data(16), Ok(None));
}

#[test]
fn test_mock_records_writes_and_closes() {
    let mut mock = MockTransport::default();
    assert_eq!(mock.description(), "MockTransport@115200");
    mock.write_all(&[1, 2]).unwrap();
    mock.write_all(&[3]).unwrap();
    assert_eq!(mock.get_written_data(), vec![vec![1, 2], vec![3]]);
    mock.clear_written_data();
    assert!(mock.get_written_data().is_empty());
    mock.set_read_delay(Some(Duration::from_millis(5)));
    assert_eq!(mock.read_delay(), Some(Duration::from_millis(5)));
    mock.set_timeout_on_read(true);
    assert!(mock.timeout_on_read());
    assert!(mock.is_open());
    mock.close();
    assert!(!mock.is_open());
    assert_eq!(
        mock.write_all(&[1]),
        Err(ShdlcError::Transport("Port is closed".to_string()))
    );
    assert_eq!(
        mock.take_rx_data(4),
        Err(ShdlcError::Transport("Port is closed".to_string()))
    );
    mock.set_support_bitrate_change(false);
    assert_eq!(
        mock.bitrate(),
        Err(ShdlcError::PortError("Reading bitrate is not supported on this port".to_string()))
    );
}
