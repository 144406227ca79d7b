use vstd::prelude::*;
use crate::protocol::errors::{device_error_text, is_response_error, ShdlcError};
use crate::protocol::frame::ShdlcMisoFrame;
use crate::protocol::text::{decimal_string, decimal_text, hex_encode, hex_upper_text};

verus! {

/// The message for a response from another slave address.
pub open spec fn address_mismatch_text(received: u8, expected: u8) -> Seq<char> {
    "Received slave address "@ + decimal_text(received as nat) + " instead of "@ + decimal_text(
        expected as nat,
    ) + "."@
}

/// The message for a response to another command.
pub open spec fn command_mismatch_text(received: u8, expected: u8) -> Seq<char> {
    "Received command ID 0x"@ + hex_upper_text(seq![received]) + " instead of 0x"@
        + hex_upper_text(seq![expected]) + "."@
}

/// Check a received response against the request it answers: it must come
/// from the addressed slave, answer the sent command and report no error.
/// Returns the response data and whether the device flags an error state.
pub fn validate_response(slave_address: u8, command_id: u8, miso: ShdlcMisoFrame) -> (r: Result<
    (Vec<u8>, bool),
    ShdlcError,
>)
    ensures
        miso.slave_address != slave_address ==> r is Err && is_response_error(
            r->Err_0,
            address_mismatch_text(miso.slave_address, slave_address),
            Some(miso.data@),
        ),
        miso.slave_address == slave_address && miso.command_id != command_id ==> r is Err
            && is_response_error(
            r->Err_0,
            command_mismatch_text(miso.command_id, command_id),
            Some(miso.data@),
        ),
        miso.slave_address == slave_address && miso.command_id == command_id && miso.state % 128
            != 0 ==> (r matches Err(ShdlcError::DeviceError { code, message }) && code
            == miso.state % 128 && message@ == device_error_text(code)),
        miso.slave_address == slave_address && miso.command_id == command_id && miso.state % 128
            == 0 ==> (r matches Ok((data, error_state)) && data@ == miso.data@ && error_state == (
        miso.state >= 0x80)),
{
    if miso.slave_address != slave_address {
        let mut m = String::from_str("Received slave address ");
        m.append(decimal_string(miso.slave_address as u64).as_str());
        m.append(" instead of ");
        m.append(decimal_string(slave_address as u64).as_str());
        m.append(".");
        return Err(ShdlcError::response_error(m, Some(miso.data)));
    }
    if miso.command_id != command_id {
        let received = [miso.command_id];
        let expected = [command_id];
        let mut m = String::from_str("Received command ID 0x");
        m.append(hex_encode(&received).as_str());
        m.append(" instead of 0x");
        m.append(hex_encode(&expected).as_str());
        m.append(".");
        proof {
            assert(received@ =~= seq![miso.command_id]);
            assert(expected@ =~= seq![command_id]);
        }
        return Err(ShdlcError::response_error(m, Some(miso.data)));
    }
    let error_state = miso.is_error_state();
    let error_code = miso.error_code();
    if error_code != 0 {
        return Err(ShdlcError::device_error(error_code));
    }
    Ok((miso.data, error_state))
}

} // verus!
