use vstd::prelude::*;
use crate::protocol::commands::ShdlcCommand;
use crate::protocol::errors::ShdlcError;
use crate::protocol::time::Duration;

verus! {

/// Reads the slave address of the device.
#[derive(Debug, Clone, Copy, Default)]
pub struct GetSlaveAddress;

impl ShdlcCommand for GetSlaveAddress {
    type Response = u8;

    open spec fn spec_id(&self) -> u8 {
        0x90
    }

    open spec fn spec_data(&self) -> Seq<u8> {
        seq![]
    }

    open spec fn spec_max_response_time(&self) -> Duration {
        Duration::spec_from_millis(50)
    }

    open spec fn spec_min_response_length(&self) -> usize {
        1
    }

    open spec fn spec_max_response_length(&self) -> usize {
        1
    }

    open spec fn spec_post_processing_time(&self) -> Duration {
        Duration::spec_from_secs(0)
    }

    open spec fn interpret_requires(&self, data: Seq<u8>) -> bool {
        data.len() >= 1
    }

    open spec fn interpret_ensures(&self, data: Seq<u8>, r: Result<u8, ShdlcError>) -> bool {
        r == Ok::<u8, ShdlcError>(data[0])
    }

    proof fn lemma_length_admits_interpretation(&self, data: Seq<u8>) {
    }

    fn id(&self) -> (r: u8) {
        0x90
    }

    fn data(&self) -> (r: Vec<u8>) {
        Vec::new()
    }

    fn max_response_time(&self) -> (r: Duration) {
        Duration::from_millis(50)
    }

    fn min_response_length(&self) -> (r: usize) {
        1
    }

    fn max_response_length(&self) -> (r: usize) {
        1
    }

    fn post_processing_time(&self) -> (r: Duration) {
        Duration::from_secs(0)
    }

    fn interpret_response(&self, data: &[u8]) -> (r: Result<u8, ShdlcError>) {
        Ok(data[0])
    }
}

/// Sets the slave address of the device.
#[derive(Debug, Clone, Copy)]
pub struct SetSlaveAddress {
    pub slave_address: u8,
}

impl SetSlaveAddress {
    pub fn new(slave_address: u8) -> (c: Self)
        ensures
            c.slave_address == slave_address,
    {
        Self { slave_address }
    }
}

impl ShdlcCommand for SetSlaveAddress {
    type Response = ();

    open spec fn spec_id(&self) -> u8 {
        0x90
    }

    open spec fn spec_data(&self) -> Seq<u8> {
        seq![self.slave_address]
    }

    open spec fn spec_max_response_time(&self) -> Duration {
        Duration::spec_from_millis(50)
    }

    open spec fn spec_min_response_length(&self) -> usize {
        0
    }

    open spec fn spec_max_response_length(&self) -> usize {
        0
    }

    open spec fn spec_post_processing_time(&self) -> Duration {
        Duration::spec_from_secs(0)
    }

    open spec fn interpret_requires(&self, data: Seq<u8>) -> bool {
        true
    }

    open spec fn interpret_ensures(&self, data: Seq<u8>, r: Result<(), ShdlcError>) -> bool {
        r == Ok::<(), ShdlcError>(())
    }

    proof fn lemma_length_admits_interpretation(&self, data: Seq<u8>) {
    }

    fn id(&self) -> (r: u8) {
        0x90
    }

    fn data(&self) -> (r: Vec<u8>) {
        let mut v: Vec<u8> = Vec::new();
        v.push(self.slave_address);
        v
    }

    fn max_response_time(&self) -> (r: Duration) {
        Duration::from_millis(50)
    }

    fn min_response_length(&self) -> (r: usize) {
        0
    }

    fn max_response_length(&self) -> (r: usize) {
        0
    }

    fn post_processing_time(&self) -> (r: Duration) {
        Duration::from_secs(0)
    }

    fn interpret_response(&self, _data: &[u8]) -> (r: Result<(), ShdlcError>) {
        Ok(())
    }
}

} // verus!
