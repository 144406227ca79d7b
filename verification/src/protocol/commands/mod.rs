use vstd::prelude::*;
use crate::protocol::errors::{is_response_error, ShdlcError};
use crate::protocol::text::{decimal_string, decimal_text};
use crate::protocol::time::Duration;

pub mod baudrate;
pub mod bootloader;
pub mod custom;
pub mod device_info;
pub mod device_reset;
pub mod device_version;
pub mod endian;
pub mod error_state;
pub mod reply_delay;
pub mod slave_address;
pub mod system_up_time;

pub use baudrate::{GetBaudrate, SetBaudrate};
pub use bootloader::{EnterBootloader, FirmwareUpdateData, FirmwareUpdateStart, FirmwareUpdateStop};
pub use custom::RawShdlcCommand;
pub use device_info::{
    GetArticleCode, GetProductName, GetProductSubType, GetProductType, GetSerialNumber,
};
pub use device_reset::DeviceReset;
pub use device_version::GetVersion;
pub use error_state::GetErrorState;
pub use reply_delay::{GetReplyDelay, SetReplyDelay};
pub use slave_address::{GetSlaveAddress, SetSlaveAddress};
pub use system_up_time::GetSystemUpTime;

verus! {

/// The message of the error for a response whose length is out of range.
pub open spec fn length_error_text(min: nat, max: nat, len: nat) -> Seq<char> {
    "Wrong response length (expected "@ + decimal_text(min) + ".."@ + decimal_text(max)
        + " bytes, got "@ + decimal_text(len) + ")."@
}

/// Trait implemented by all SHDLC commands.
pub trait ShdlcCommand: Send + Sync {
    type Response: Send;

    /// The command id.
    spec fn spec_id(&self) -> u8;

    /// The data sent with the command.
    spec fn spec_data(&self) -> Seq<u8>;

    /// The time the device may take to respond.
    spec fn spec_max_response_time(&self) -> Duration;

    /// The least number of data bytes a valid response holds.
    spec fn spec_min_response_length(&self) -> usize;

    /// The most data bytes a valid response holds.
    spec fn spec_max_response_length(&self) -> usize;

    /// The time the device needs after responding before it takes the next command.
    spec fn spec_post_processing_time(&self) -> Duration;

    /// The response data that `interpret_response` accepts.
    spec fn interpret_requires(&self, data: Seq<u8>) -> bool;

    /// What `interpret_response` returns for the given response data.
    spec fn interpret_ensures(&self, data: Seq<u8>, r: Result<Self::Response, ShdlcError>) -> bool;

    /// Every response whose length is in range can be interpreted.
    proof fn lemma_length_admits_interpretation(&self, data: Seq<u8>)
        requires
            self.spec_min_response_length() <= data.len() <= self.spec_max_response_length(),
        ensures
            self.interpret_requires(data),
    ;

    fn id(&self) -> (r: u8)
        ensures
            r == self.spec_id(),
    ;

    fn data(&self) -> (r: Vec<u8>)
        ensures
            r@ == self.spec_data(),
    ;

    fn max_response_time(&self) -> (r: Duration)
        ensures
            r == self.spec_max_response_time(),
    ;

    fn min_response_length(&self) -> (r: usize)
        ensures
            r == self.spec_min_response_length(),
    ;

    fn max_response_length(&self) -> (r: usize)
        ensures
            r == self.spec_max_response_length(),
    ;

    fn post_processing_time(&self) -> (r: Duration)
        ensures
            r == self.spec_post_processing_time(),
    ;

    /// Check that the response data has a length in the range of the command.
    fn check_response_length(&self, data: &[u8]) -> (r: Result<(), ShdlcError>)
        ensures
            r is Ok <==> self.spec_min_response_length() <= data@.len()
                <= self.spec_max_response_length(),
            r is Err ==> is_response_error(
                r->Err_0,
                length_error_text(
                    self.spec_min_response_length() as nat,
                    self.spec_max_response_length() as nat,
                    data@.len(),
                ),
                Some(data@),
            ),
    {
        let len = data.len();
        let min = self.min_response_length();
        let max = self.max_response_length();
        if len < min || len > max {
            Err(ShdlcError::response_error(length_error_message(min, max, len), Some(copy_slice(data))))
        } else {
            Ok(())
        }
    }

    /// Interpret the data of a response.
    fn interpret_response(&self, data: &[u8]) -> (r: Result<Self::Response, ShdlcError>)
        requires
            self.interpret_requires(data@),
        ensures
            self.interpret_ensures(data@, r),
    ;
}

fn copy_slice(s: &[u8]) -> (v: Vec<u8>)
    ensures
        v@ == s@,
{
    vstd::slice::slice_to_vec(s)
}

fn length_error_message(min: usize, max: usize, len: usize) -> (m: String)
    ensures
        m@ == length_error_text(min as nat, max as nat, len as nat),
{
    let mut m = String::from_str("Wrong response length (expected ");
    m.append(decimal_string(min as u64).as_str());
    m.append("..");
    m.append(decimal_string(max as u64).as_str());
    m.append(" bytes, got ");
    m.append(decimal_string(len as u64).as_str());
    m.append(").");
    m
}

/// Check the length of a response and, when it is in range, interpret it.
pub fn interpret_checked_response<C: ShdlcCommand>(command: &C, data: &[u8]) -> (r: Result<
    C::Response,
    ShdlcError,
>)
    ensures
        !(command.spec_min_response_length() <= data@.len() <= command.spec_max_response_length())
            ==> r is Err && is_response_error(
            r->Err_0,
            length_error_text(
                command.spec_min_response_length() as nat,
                command.spec_max_response_length() as nat,
                data@.len(),
            ),
            Some(data@),
        ),
        command.spec_min_response_length() <= data@.len() <= command.spec_max_response_length()
            ==> command.interpret_ensures(data@, r),
{
    match command.check_response_length(data) {
        Err(e) => Err(e),
        Ok(()) => {
            proof {
                command.lemma_length_admits_interpretation(data@);
            }
            command.interpret_response(data)
        },
    }
}

} // verus!
