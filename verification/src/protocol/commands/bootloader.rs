use vstd::prelude::*;
use crate::protocol::commands::ShdlcCommand;
use crate::protocol::errors::ShdlcError;
use crate::protocol::time::Duration;

verus! {

/// Makes the device enter its bootloader.
#[derive(Debug, Clone, Copy, Default)]
pub struct EnterBootloader;

impl ShdlcCommand for EnterBootloader {
    type Response = ();

    open spec fn spec_id(&self) -> u8 {
        0xF3
    }

    open spec fn spec_data(&self) -> Seq<u8> {
        seq![]
    }

    open spec fn spec_max_response_time(&self) -> Duration {
        Duration::spec_from_millis(100)
    }

    open spec fn spec_min_response_length(&self) -> usize {
        0
    }

    open spec fn spec_max_response_length(&self) -> usize {
        0
    }

    open spec fn spec_post_processing_time(&self) -> Duration {
        Duration::spec_from_secs(2)
    }

    open spec fn interpret_requires(&self, data: Seq<u8>) -> bool {
        true
    }

    open spec fn interpret_ensures(&self, data: Seq<u8>, r: Result<(), ShdlcError>) -> bool {
        r == Ok::<(), ShdlcError>(())
    }

    proof fn lemma_length_admits_interpretation(&self, data: Seq<u8>) {
    }

    fn id(&self) -> (r: u8) {
        0xF3
    }

    fn data(&self) -> (r: Vec<u8>) {
        Vec::new()
    }

    fn max_response_time(&self) -> (r: Duration) {
        Duration::from_millis(100)
    }

    fn min_response_length(&self) -> (r: usize) {
        0
    }

    fn max_response_length(&self) -> (r: usize) {
        0
    }

    fn post_processing_time(&self) -> (r: Duration) {
        Duration::from_secs(2)
    }

    fn interpret_response(&self, _data: &[u8]) -> (r: Result<(), ShdlcError>) {
        Ok(())
    }
}

/// Starts a firmware update; the bootloader clears the flash.
#[derive(Debug, Clone, Copy, Default)]
pub struct FirmwareUpdateStart;

impl ShdlcCommand for FirmwareUpdateStart {
    type Response = ();

    open spec fn spec_id(&self) -> u8 {
        0xF3
    }

    open spec fn spec_data(&self) -> Seq<u8> {
        seq![1u8]
    }

    open spec fn spec_max_response_time(&self) -> Duration {
        Duration::spec_from_secs(20)
    }

    open spec fn spec_min_response_length(&self) -> usize {
        0
    }

    open spec fn spec_max_response_length(&self) -> usize {
        0
    }

    open spec fn spec_post_processing_time(&self) -> Duration {
        Duration::spec_from_secs(0)
    }

    open spec fn interpret_requires(&self, data: Seq<u8>) -> bool {
        true
    }

    open spec fn interpret_ensures(&self, data: Seq<u8>, r: Result<(), ShdlcError>) -> bool {
        r == Ok::<(), ShdlcError>(())
    }

    proof fn lemma_length_admits_interpretation(&self, data: Seq<u8>) {
    }

    fn id(&self) -> (r: u8) {
        0xF3
    }

    fn data(&self) -> (r: Vec<u8>) {
        let mut v: Vec<u8> = Vec::new();
        v.push(0x01);
        v
    }

    fn max_response_time(&self) -> (r: Duration) {
        Duration::from_secs(20)
    }

    fn min_response_length(&self) -> (r: usize) {
        0
    }

    fn max_response_length(&self) -> (r: usize) {
        0
    }

    fn post_processing_time(&self) -> (r: Duration) {
        Duration::from_secs(0)
    }

    fn interpret_response(&self, _data: &[u8]) -> (r: Result<(), ShdlcError>) {
        Ok(())
    }
}

/// Sends one block of firmware data to the bootloader.
#[derive(Debug, Clone)]
pub struct FirmwareUpdateData {
    pub payload: Vec<u8>,
}

impl FirmwareUpdateData {
    pub fn new(payload: &[u8]) -> (c: Self)
        ensures
            c.payload@ == payload@,
    {
        Self { payload: vstd::slice::slice_to_vec(payload) }
    }
}

impl ShdlcCommand for FirmwareUpdateData {
    type Response = ();

    open spec fn spec_id(&self) -> u8 {
        0xF3
    }

    open spec fn spec_data(&self) -> Seq<u8> {
        seq![2u8] + self.payload@
    }

    open spec fn spec_max_response_time(&self) -> Duration {
        Duration::spec_from_secs(1)
    }

    open spec fn spec_min_response_length(&self) -> usize {
        0
    }

    open spec fn spec_max_response_length(&self) -> usize {
        0
    }

    open spec fn spec_post_processing_time(&self) -> Duration {
        Duration::spec_from_secs(0)
    }

    open spec fn interpret_requires(&self, data: Seq<u8>) -> bool {
        true
    }

    open spec fn interpret_ensures(&self, data: Seq<u8>, r: Result<(), ShdlcError>) -> bool {
        r == Ok::<(), ShdlcError>(())
    }

    proof fn lemma_length_admits_interpretation(&self, data: Seq<u8>) {
    }

    fn id(&self) -> (r: u8) {
        0xF3
    }

    fn data(&self) -> (r: Vec<u8>) {
        let mut d: Vec<u8> = Vec::new();
        d.push(0x02);
        let mut i: usize = 0;
        while i < self.payload.len()
            invariant
                i <= self.payload.len(),
                d@ == seq![2u8] + self.payload@.take(i as int),
            decreases self.payload.len() - i,
        {
            d.push(self.payload[i]);
            i = i + 1;
            assert(d@ =~= seq![2u8] + self.payload@.take(i as int));
        }
        assert(self.payload@.take(i as int) =~= self.payload@);
        d
    }

    fn max_response_time(&self) -> (r: Duration) {
        Duration::from_secs(1)
    }

    fn min_response_length(&self) -> (r: usize) {
        0
    }

    fn max_response_length(&self) -> (r: usize) {
        0
    }

    fn post_processing_time(&self) -> (r: Duration) {
        Duration::from_secs(0)
    }

    fn interpret_response(&self, _data: &[u8]) -> (r: Result<(), ShdlcError>) {
        Ok(())
    }
}

/// Ends a firmware update; the bootloader verifies the checksum of the written image.
#[derive(Debug, Clone, Copy)]
pub struct FirmwareUpdateStop {
    pub checksum: u8,
}

impl FirmwareUpdateStop {
    pub fn new(checksum: u8) -> (c: Self)
        ensures
            c.checksum == checksum,
    {
        Self { checksum }
    }
}

impl ShdlcCommand for FirmwareUpdateStop {
    type Response = ();

    open spec fn spec_id(&self) -> u8 {
        0xF3
    }

    open spec fn spec_data(&self) -> Seq<u8> {
        seq![3u8, self.checksum]
    }

    open spec fn spec_max_response_time(&self) -> Duration {
        Duration::spec_from_secs(1)
    }

    open spec fn spec_min_response_length(&self) -> usize {
        0
    }

    open spec fn spec_max_response_length(&self) -> usize {
        0
    }

    open spec fn spec_post_processing_time(&self) -> Duration {
        Duration::spec_from_secs(2)
    }

    open spec fn interpret_requires(&self, data: Seq<u8>) -> bool {
        true
    }

    open spec fn interpret_ensures(&self, data: Seq<u8>, r: Result<(), ShdlcError>) -> bool {
        r == Ok::<(), ShdlcError>(())
    }

    proof fn lemma_length_admits_interpretation(&self, data: Seq<u8>) {
    }

    fn id(&self) -> (r: u8) {
        0xF3
    }

    fn data(&self) -> (r: Vec<u8>) {
        let mut v: Vec<u8> = Vec::new();
        v.push(0x03);
        v.push(self.checksum);
        v
    }

    fn max_response_time(&self) -> (r: Duration) {
        Duration::from_secs(1)
    }

    fn min_response_length(&self) -> (r: usize) {
        0
    }

    fn max_response_length(&self) -> (r: usize) {
        0
    }

    fn post_processing_time(&self) -> (r: Duration) {
        Duration::from_secs(2)
    }

    fn interpret_response(&self, _data: &[u8]) -> (r: Result<(), ShdlcError>) {
        Ok(())
    }
}

} // verus!
