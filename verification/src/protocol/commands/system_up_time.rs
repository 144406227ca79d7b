use vstd::prelude::*;
use crate::protocol::commands::ShdlcCommand;
use crate::protocol::errors::ShdlcError;
use crate::protocol::time::Duration;
use crate::protocol::commands::endian::{be_u32_value, read_u32_be};

verus! {

/// Reads the time since the last power-on or reset of the device, in seconds.
#[derive(Debug, Clone, Copy, Default)]
pub struct GetSystemUpTime;

impl ShdlcCommand for GetSystemUpTime {
    type Response = u32;

    open spec fn spec_id(&self) -> u8 {
        0x93
    }

    open spec fn spec_data(&self) -> Seq<u8> {
        seq![]
    }

    open spec fn spec_max_response_time(&self) -> Duration {
        Duration::spec_from_millis(50)
    }

    open spec fn spec_min_response_length(&self) -> usize {
        4
    }

    open spec fn spec_max_response_length(&self) -> usize {
        4
    }

    open spec fn spec_post_processing_time(&self) -> Duration {
        Duration::spec_from_secs(0)
    }

    open spec fn interpret_requires(&self, data: Seq<u8>) -> bool {
        data.len() >= 4
    }

    open spec fn interpret_ensures(&self, data: Seq<u8>, r: Result<u32, ShdlcError>) -> bool {
        r matches Ok(n) && n as nat == be_u32_value(data[0], data[1], data[2], data[3])
    }

    proof fn lemma_length_admits_interpretation(&self, data: Seq<u8>) {
    }

    fn id(&self) -> (r: u8) {
        0x93
    }

    fn data(&self) -> (r: Vec<u8>) {
        Vec::new()
    }

    fn max_response_time(&self) -> (r: Duration) {
        Duration::from_millis(50)
    }

    fn min_response_length(&self) -> (r: usize) {
        4
    }

    fn max_response_length(&self) -> (r: usize) {
        4
    }

    fn post_processing_time(&self) -> (r: Duration) {
        Duration::from_secs(0)
    }

    fn interpret_response(&self, data: &[u8]) -> (r: Result<u32, ShdlcError>) {
        Ok(read_u32_be(data))
    }
}

} // verus!
