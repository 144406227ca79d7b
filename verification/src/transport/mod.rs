pub mod mock;
pub mod transceiver;

pub use mock::MockTransport;
pub use transceiver::ShdlcTransceiver;
