use vstd::prelude::*;
use crate::protocol::commands::ShdlcCommand;
use crate::protocol::errors::ShdlcError;
use crate::protocol::time::Duration;
use crate::protocol::commands::endian::{be_u32_value, read_u32_be};

verus! {

/// Reads the device state flags and the last error, optionally clearing them.
#[derive(Debug, Clone, Copy)]
pub struct GetErrorState {
    pub clear: bool,
}

impl GetErrorState {
    pub fn new(clear: bool) -> (c: Self)
        ensures
            c.clear == clear,
    {
        Self { clear }
    }
}

impl Default for GetErrorState {
    /// By default the error state is cleared when read.
    fn default() -> (c: Self)
        ensures
            c.clear,
    {
        Self { clear: true }
    }
}

impl ShdlcCommand for GetErrorState {
    type Response = (u32, u8);

    open spec fn spec_id(&self) -> u8 {
        0xD2
    }

    open spec fn spec_data(&self) -> Seq<u8> {
        seq![if self.clear { 1u8 } else { 0u8 }]
    }

    open spec fn spec_max_response_time(&self) -> Duration {
        Duration::spec_from_millis(500)
    }

    open spec fn spec_min_response_length(&self) -> usize {
        5
    }

    open spec fn spec_max_response_length(&self) -> usize {
        5
    }

    open spec fn spec_post_processing_time(&self) -> Duration {
        Duration::spec_from_secs(0)
    }

    open spec fn interpret_requires(&self, data: Seq<u8>) -> bool {
        data.len() >= 5
    }

    open spec fn interpret_ensures(&self, data: Seq<u8>, r: Result<(u32, u8), ShdlcError>) -> bool {
        r matches Ok((state, last)) && state as nat == be_u32_value(data[0], data[1], data[2], data[3]) && last == data[4]
    }

    proof fn lemma_length_admits_interpretation(&self, data: Seq<u8>) {
    }

    fn id(&self) -> (r: u8) {
        0xD2
    }

    fn data(&self) -> (r: Vec<u8>) {
        let mut v: Vec<u8> = Vec::new();
        v.push(if self.clear { 0x01 } else { 0x00 });
        v
    }

    fn max_response_time(&self) -> (r: Duration) {
        Duration::from_millis(500)
    }

    fn min_response_length(&self) -> (r: usize) {
        5
    }

    fn max_response_length(&self) -> (r: usize) {
        5
    }

    fn post_processing_time(&self) -> (r: Duration) {
        Duration::from_secs(0)
    }

    fn interpret_response(&self, data: &[u8]) -> (r: Result<(u32, u8), ShdlcError>) {
        let device_state = read_u32_be(vstd::slice::slice_subrange(data, 0, 4));
        let last_error = data[4];
        Ok((device_state, last_error))
    }
}

} // verus!
