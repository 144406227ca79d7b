use vstd::prelude::*;
use std::collections::HashMap;
use crate::protocol::errors::ShdlcError;

verus! {

/// The error a device reports, after the messages registered for its error codes.
pub open spec fn spec_registered_error(registered: Map<u8, String>, err: ShdlcError) -> ShdlcError {
    match err {
        ShdlcError::DeviceError { code, message } => ShdlcError::DeviceError {
            code,
            message: if registered.contains_key(code) {
                registered[code]
            } else {
                message
            },
        },
        _ => err,
    }
}

/// Replace the message of a device error by the one registered for its
/// error code, where there is one; other errors pass unchanged.
pub fn apply_registered_errors(registered: &HashMap<u8, String>, err: ShdlcError) -> (e: ShdlcError)
    ensures
        e == spec_registered_error(registered@, err),
{
    match err {
        ShdlcError::DeviceError { code, message } => {
            let msg = match registered.get(&code) {
                Some(m) => m.clone(),
                None => message,
            };
            ShdlcError::DeviceError { code, message: msg }
        },
        other => other,
    }
}

/// The slave address the driver talks to after the device took a new one:
/// the new address where the driver is to follow it, else the one it had.
pub fn driver_slave_address(current: u8, assigned: u8, update_driver: bool) -> (a: u8)
    ensures
        a == if update_driver {
            assigned
        } else {
            current
        },
{
    if update_driver {
        assigned
    } else {
        current
    }
}

} // verus!
