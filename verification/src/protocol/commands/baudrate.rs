use vstd::prelude::*;
use crate::protocol::commands::ShdlcCommand;
use crate::protocol::errors::ShdlcError;
use crate::protocol::time::Duration;
use crate::protocol::commands::endian::{be_u32_bytes, be_u32_value, read_u32_be, write_u32_be};

verus! {

/// Reads the baudrate of the device's serial interface.
#[derive(Debug, Clone, Copy, Default)]
pub struct GetBaudrate;

impl ShdlcCommand for GetBaudrate {
    type Response = u32;

    open spec fn spec_id(&self) -> u8 {
        0x91
    }

    open spec fn spec_data(&self) -> Seq<u8> {
        seq![]
    }

    open spec fn spec_max_response_time(&self) -> Duration {
        Duration::spec_from_millis(50)
    }

    open spec fn spec_min_response_length(&self) -> usize {
        4
    }

    open spec fn spec_max_response_length(&self) -> usize {
        4
    }

    open spec fn spec_post_processing_time(&self) -> Duration {
        Duration::spec_from_secs(0)
    }

    open spec fn interpret_requires(&self, data: Seq<u8>) -> bool {
        data.len() >= 4
    }

    open spec fn interpret_ensures(&self, data: Seq<u8>, r: Result<u32, ShdlcError>) -> bool {
        r matches Ok(n) && n as nat == be_u32_value(data[0], data[1], data[2], data[3])
    }

    proof fn lemma_length_admits_interpretation(&self, data: Seq<u8>) {
    }

    fn id(&self) -> (r: u8) {
        0x91
    }

    fn data(&self) -> (r: Vec<u8>) {
        Vec::new()
    }

    fn max_response_time(&self) -> (r: Duration) {
        Duration::from_millis(50)
    }

    fn min_response_length(&self) -> (r: usize) {
        4
    }

    fn max_response_length(&self) -> (r: usize) {
        4
    }

    fn post_processing_time(&self) -> (r: Duration) {
        Duration::from_secs(0)
    }

    fn interpret_response(&self, data: &[u8]) -> (r: Result<u32, ShdlcError>) {
        Ok(read_u32_be(data))
    }
}

/// Sets the baudrate of the device's serial interface.
#[derive(Debug, Clone, Copy)]
pub struct SetBaudrate {
    pub baudrate: u32,
}

impl SetBaudrate {
    pub fn new(baudrate: u32) -> (c: Self)
        ensures
            c.baudrate == baudrate,
    {
        Self { baudrate }
    }
}

impl ShdlcCommand for SetBaudrate {
    type Response = ();

    open spec fn spec_id(&self) -> u8 {
        0x91
    }

    open spec fn spec_data(&self) -> Seq<u8> {
        be_u32_bytes(self.baudrate)
    }

    open spec fn spec_max_response_time(&self) -> Duration {
        Duration::spec_from_millis(50)
    }

    open spec fn spec_min_response_length(&self) -> usize {
        0
    }

    open spec fn spec_max_response_length(&self) -> usize {
        0
    }

    open spec fn spec_post_processing_time(&self) -> Duration {
        Duration::spec_from_secs(0)
    }

    open spec fn interpret_requires(&self, data: Seq<u8>) -> bool {
        true
    }

    open spec fn interpret_ensures(&self, data: Seq<u8>, r: Result<(), ShdlcError>) -> bool {
        r == Ok::<(), ShdlcError>(())
    }

    proof fn lemma_length_admits_interpretation(&self, data: Seq<u8>) {
    }

    fn id(&self) -> (r: u8) {
        0x91
    }

    fn data(&self) -> (r: Vec<u8>) {
        let mut buf: Vec<u8> = vec![0u8, 0u8, 0u8, 0u8];
        write_u32_be(&mut buf, self.baudrate);
        assert(buf@ =~= be_u32_bytes(self.baudrate));
        buf
    }

    fn max_response_time(&self) -> (r: Duration) {
        Duration::from_millis(50)
    }

    fn min_response_length(&self) -> (r: usize) {
        0
    }

    fn max_response_length(&self) -> (r: usize) {
        0
    }

    fn post_processing_time(&self) -> (r: Duration) {
        Duration::from_secs(0)
    }

    fn interpret_response(&self, _data: &[u8]) -> (r: Result<(), ShdlcError>) {
        Ok(())
    }
}

} // verus!
