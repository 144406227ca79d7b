use vstd::prelude::*;
use crate::protocol::commands::ShdlcCommand;
use crate::protocol::errors::ShdlcError;
use crate::protocol::time::Duration;
use crate::protocol::types::{FirmwareVersion, HardwareVersion, ProtocolVersion, Version};

verus! {

/// Reads the firmware, hardware and protocol versions of the device.
#[derive(Debug, Clone, Copy, Default)]
pub struct GetVersion;

impl ShdlcCommand for GetVersion {
    type Response = Version;

    open spec fn spec_id(&self) -> u8 {
        0xD1
    }

    open spec fn spec_data(&self) -> Seq<u8> {
        seq![]
    }

    open spec fn spec_max_response_time(&self) -> Duration {
        Duration::spec_from_millis(500)
    }

    open spec fn spec_min_response_length(&self) -> usize {
        7
    }

    open spec fn spec_max_response_length(&self) -> usize {
        7
    }

    open spec fn spec_post_processing_time(&self) -> Duration {
        Duration::spec_from_secs(0)
    }

    open spec fn interpret_requires(&self, data: Seq<u8>) -> bool {
        data.len() >= 7
    }

    open spec fn interpret_ensures(&self, data: Seq<u8>, r: Result<Version, ShdlcError>) -> bool {
        r == Ok::<Version, ShdlcError>(
            Version {
                firmware: FirmwareVersion { major: data[0], minor: data[1], debug: data[2] != 0 },
                hardware: HardwareVersion { major: data[3], minor: data[4] },
                protocol: ProtocolVersion { major: data[5], minor: data[6] },
            },
        )
    }

    proof fn lemma_length_admits_interpretation(&self, data: Seq<u8>) {
    }

    fn id(&self) -> (r: u8) {
        0xD1
    }

    fn data(&self) -> (r: Vec<u8>) {
        Vec::new()
    }

    fn max_response_time(&self) -> (r: Duration) {
        Duration::from_millis(500)
    }

    fn min_response_length(&self) -> (r: usize) {
        7
    }

    fn max_response_length(&self) -> (r: usize) {
        7
    }

    fn post_processing_time(&self) -> (r: Duration) {
        Duration::from_secs(0)
    }

    fn interpret_response(&self, data: &[u8]) -> (r: Result<Version, ShdlcError>) {
        Ok(
            Version::new(
                FirmwareVersion::new(data[0], data[1], data[2] != 0),
                HardwareVersion::new(data[3], data[4]),
                ProtocolVersion::new(data[5], data[6]),
            ),
        )
    }
}

} // verus!
