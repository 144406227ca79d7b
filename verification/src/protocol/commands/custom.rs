use vstd::prelude::*;
use crate::protocol::commands::ShdlcCommand;
use crate::protocol::errors::ShdlcError;
use crate::protocol::time::Duration;

verus! {

/// A command given by its id, data and response limits, whose response is
/// returned as raw bytes.
#[derive(Debug, Clone)]
pub struct RawShdlcCommand {
    pub id: u8,
    pub data: Vec<u8>,
    pub max_response_time: Duration,
    pub min_response_length: usize,
    pub max_response_length: usize,
    pub post_processing_time: Duration,
}

impl RawShdlcCommand {
    /// A command that accepts responses of 0 to 255 bytes and needs no post-processing time.
    pub fn new(id: u8, data: &[u8], max_response_time: Duration) -> (c: Self)
        ensures
            c.id == id,
            c.data@ == data@,
            c.max_response_time == max_response_time,
            c.min_response_length == 0,
            c.max_response_length == 255,
            c.post_processing_time == Duration::spec_from_secs(0),
    {
        Self {
            id,
            data: vstd::slice::slice_to_vec(data),
            max_response_time,
            min_response_length: 0,
            max_response_length: 255,
            post_processing_time: Duration::from_secs(0),
        }
    }

    /// The same command with other response length limits.
    pub fn with_response_lengths(self, min: usize, max: usize) -> (c: Self)
        ensures
            c == (RawShdlcCommand { min_response_length: min, max_response_length: max, ..self }),
    {
        let mut c = self;
        c.min_response_length = min;
        c.max_response_length = max;
        c
    }

    /// The same command with another post-processing time.
    pub fn with_post_processing_time(self, time: Duration) -> (c: Self)
        ensures
            c == (RawShdlcCommand { post_processing_time: time, ..self }),
    {
        let mut c = self;
        c.post_processing_time = time;
        c
    }
}

impl ShdlcCommand for RawShdlcCommand {
    type Response = Vec<u8>;

    open spec fn spec_id(&self) -> u8 {
        self.id
    }

    open spec fn spec_data(&self) -> Seq<u8> {
        self.data@
    }

    open spec fn spec_max_response_time(&self) -> Duration {
        self.max_response_time
    }

    open spec fn spec_min_response_length(&self) -> usize {
        self.min_response_length
    }

    open spec fn spec_max_response_length(&self) -> usize {
        self.max_response_length
    }

    open spec fn spec_post_processing_time(&self) -> Duration {
        self.post_processing_time
    }

    open spec fn interpret_requires(&self, data: Seq<u8>) -> bool {
        true
    }

    open spec fn interpret_ensures(&self, data: Seq<u8>, r: Result<Vec<u8>, ShdlcError>) -> bool {
        r matches Ok(v) && v@ == data
    }

    proof fn lemma_length_admits_interpretation(&self, data: Seq<u8>) {
    }

    fn id(&self) -> (r: u8) {
        self.id
    }

    fn data(&self) -> (r: Vec<u8>) {
        vstd::slice::slice_to_vec(self.data.as_slice())
    }

    fn max_response_time(&self) -> (r: Duration) {
        self.max_response_time
    }

    fn min_response_length(&self) -> (r: usize) {
        self.min_response_length
    }

    fn max_response_length(&self) -> (r: usize) {
        self.max_response_length
    }

    fn post_processing_time(&self) -> (r: Duration) {
        self.post_processing_time
    }

    fn interpret_response(&self, data: &[u8]) -> (r: Result<Vec<u8>, ShdlcError>) {
        Ok(vstd::slice::slice_to_vec(data))
    }
}

} // verus!
