use vstd::prelude::*;
use crate::protocol::commands::ShdlcCommand;
use crate::protocol::errors::ShdlcError;
use crate::protocol::time::Duration;
use crate::protocol::commands::endian::{be_u16_bytes, be_u16_value, read_u16_be, write_u16_be};

verus! {

/// Reads the reply delay of the device in microseconds.
#[derive(Debug, Clone, Copy, Default)]
pub struct GetReplyDelay;

impl ShdlcCommand for GetReplyDelay {
    type Response = u16;

    open spec fn spec_id(&self) -> u8 {
        0x95
    }

    open spec fn spec_data(&self) -> Seq<u8> {
        seq![]
    }

    open spec fn spec_max_response_time(&self) -> Duration {
        Duration::spec_from_millis(50)
    }

    open spec fn spec_min_response_length(&self) -> usize {
        2
    }

    open spec fn spec_max_response_length(&self) -> usize {
        2
    }

    open spec fn spec_post_processing_time(&self) -> Duration {
        Duration::spec_from_secs(0)
    }

    open spec fn interpret_requires(&self, data: Seq<u8>) -> bool {
        data.len() >= 2
    }

    open spec fn interpret_ensures(&self, data: Seq<u8>, r: Result<u16, ShdlcError>) -> bool {
        r matches Ok(n) && n as nat == be_u16_value(data[0], data[1])
    }

    proof fn lemma_length_admits_interpretation(&self, data: Seq<u8>) {
    }

    fn id(&self) -> (r: u8) {
        0x95
    }

    fn data(&self) -> (r: Vec<u8>) {
        Vec::new()
    }

    fn max_response_time(&self) -> (r: Duration) {
        Duration::from_millis(50)
    }

    fn min_response_length(&self) -> (r: usize) {
        2
    }

    fn max_response_length(&self) -> (r: usize) {
        2
    }

    fn post_processing_time(&self) -> (r: Duration) {
        Duration::from_secs(0)
    }

    fn interpret_response(&self, data: &[u8]) -> (r: Result<u16, ShdlcError>) {
        Ok(read_u16_be(data))
    }
}

/// Sets the reply delay of the device in microseconds.
#[derive(Debug, Clone, Copy)]
pub struct SetReplyDelay {
    pub reply_delay_us: u16,
}

impl SetReplyDelay {
    pub fn new(reply_delay_us: u16) -> (c: Self)
        ensures
            c.reply_delay_us == reply_delay_us,
    {
        Self { reply_delay_us }
    }
}

impl ShdlcCommand for SetReplyDelay {
    type Response = ();

    open spec fn spec_id(&self) -> u8 {
        0x95
    }

    open spec fn spec_data(&self) -> Seq<u8> {
        be_u16_bytes(self.reply_delay_us)
    }

    open spec fn spec_max_response_time(&self) -> Duration {
        Duration::spec_from_millis(50)
    }

    open spec fn spec_min_response_length(&self) -> usize {
        0
    }

    open spec fn spec_max_response_length(&self) -> usize {
        0
    }

    open spec fn spec_post_processing_time(&self) -> Duration {
        Duration::spec_from_secs(0)
    }

    open spec fn interpret_requires(&self, data: Seq<u8>) -> bool {
        true
    }

    open spec fn interpret_ensures(&self, data: Seq<u8>, r: Result<(), ShdlcError>) -> bool {
        r == Ok::<(), ShdlcError>(())
    }

    proof fn lemma_length_admits_interpretation(&self, data: Seq<u8>) {
    }

    fn id(&self) -> (r: u8) {
        0x95
    }

    fn data(&self) -> (r: Vec<u8>) {
        let mut buf: Vec<u8> = vec![0u8, 0u8];
        write_u16_be(&mut buf, self.reply_delay_us);
        assert(buf@ =~= be_u16_bytes(self.reply_delay_us));
        buf
    }

    fn max_response_time(&self) -> (r: Duration) {
        Duration::from_millis(50)
    }

    fn min_response_length(&self) -> (r: usize) {
        0
    }

    fn max_response_length(&self) -> (r: usize) {
        0
    }

    fn post_processing_time(&self) -> (r: Duration) {
        Duration::from_secs(0)
    }

    fn interpret_response(&self, _data: &[u8]) -> (r: Result<(), ShdlcError>) {
        Ok(())
    }
}

} // verus!
