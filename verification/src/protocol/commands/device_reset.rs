use vstd::prelude::*;
use crate::protocol::commands::ShdlcCommand;
use crate::protocol::errors::ShdlcError;
use crate::protocol::time::Duration;

verus! {

/// Restarts the device.
#[derive(Debug, Clone, Copy, Default)]
pub struct DeviceReset;

impl ShdlcCommand for DeviceReset {
    type Response = ();

    open spec fn spec_id(&self) -> u8 {
        0xD3
    }

    open spec fn spec_data(&self) -> Seq<u8> {
        seq![]
    }

    open spec fn spec_max_response_time(&self) -> Duration {
        Duration::spec_from_millis(500)
    }

    open spec fn spec_min_response_length(&self) -> usize {
        0
    }

    open spec fn spec_max_response_length(&self) -> usize {
        0
    }

    open spec fn spec_post_processing_time(&self) -> Duration {
        Duration::spec_from_secs(2)
    }

    open spec fn interpret_requires(&self, data: Seq<u8>) -> bool {
        true
    }

    open spec fn interpret_ensures(&self, data: Seq<u8>, r: Result<(), ShdlcError>) -> bool {
        r == Ok::<(), ShdlcError>(())
    }

    proof fn lemma_length_admits_interpretation(&self, data: Seq<u8>) {
    }

    fn id(&self) -> (r: u8) {
        0xD3
    }

    fn data(&self) -> (r: Vec<u8>) {
        Vec::new()
    }

    fn max_response_time(&self) -> (r: Duration) {
        Duration::from_millis(500)
    }

    fn min_response_length(&self) -> (r: usize) {
        0
    }

    fn max_response_length(&self) -> (r: usize) {
        0
    }

    fn post_processing_time(&self) -> (r: Duration) {
        Duration::from_secs(2)
    }

    fn interpret_response(&self, _data: &[u8]) -> (r: Result<(), ShdlcError>) {
        Ok(())
    }
}

} // verus!
