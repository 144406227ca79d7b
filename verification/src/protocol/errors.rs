use vstd::prelude::*;
use crate::protocol::commands::endian::be_u32_bytes;
use crate::protocol::text::{decimal_string, decimal_text, hex_encode, hex_upper_text};

verus! {

/// SHDLC error enum covering all protocol, transport, device, and firmware update errors.
#[derive(Debug, Clone, PartialEq, Eq)]
pub enum ShdlcError {
    /// No (complete) response arrived in time.
    Timeout,
    /// The device answered with data that is not a valid response.
    ResponseError { message: String, raw_data: Option<Vec<u8>> },
    /// The device reported an error code in the state byte of its response.
    DeviceError { code: u8, message: String },
    /// The firmware image does not carry the expected signature; holds the bytes found.
    FirmwareImageSignatureError(Vec<u8>),
    /// The firmware image is built for another product type.
    FirmwareImageIncompatibilityError { expected: u32, actual: u32 },
    Transport(String),
    Io(String),
    PortError(String),
    Other(String),
}

/// The text that describes a device error code.
pub open spec fn device_error_text(code: u8) -> Seq<char> {
    if code == 1 {
        "Illegal data size of the MOSI frame. Either a wrong command was sent, or the device firmware does not support the requested feature."@
    } else if code == 2 {
        "Unknown command. Check if you sent the correct command and if the firmware on the device supports it."@
    } else if code == 3 {
        "No access right for this command. Higher access rights are required to execute this command."@
    } else if code == 4 {
        "Parameter out of range. Check if you sent the correct command parameters and if the firmware on the device supports them."@
    } else if code == 5 {
        "Wrong checksum received."@
    } else if code == 6 {
        "Firmware update operation failed. Flash couldn't be written or flash validation failed."@
    } else {
        "Unknown error."@
    }
}

/// `e` is a response error with the given message and raw data.
pub open spec fn is_response_error(e: ShdlcError, message: Seq<char>, raw: Option<Seq<u8>>) -> bool {
    match e {
        ShdlcError::ResponseError { message: m, raw_data } => {
            &&& m@ == message
            &&& match raw {
                Some(r) => raw_data matches Some(d) && d@ == r,
                None => raw_data is None,
            }
        },
        _ => false,
    }
}

/// The text that describes an error.
pub open spec fn error_text(e: ShdlcError) -> Seq<char> {
    match e {
        ShdlcError::Timeout => "Timeout while waiting for response from SHDLC device. Check connection to device and make sure it is powered on."@,
        ShdlcError::ResponseError { message, .. } => "Invalid data received from the SHDLC device: "@
            + message@,
        ShdlcError::DeviceError { code, message } => "SHDLC device returned error code "@
            + decimal_text(code as nat) + ": "@ + message@,
        ShdlcError::FirmwareImageSignatureError(sig) => "Invalid signature in firmware image: 0x"@
            + hex_upper_text(sig@),
        ShdlcError::FirmwareImageIncompatibilityError { expected, actual } =>
            "Firmware image for device 0x"@ + hex_upper_text(be_u32_bytes(expected))
            + " not compatible with connected device 0x"@ + hex_upper_text(be_u32_bytes(actual))
            + "."@,
        ShdlcError::Transport(m) => "Transport error: "@ + m@,
        ShdlcError::Io(m) => "I/O error: "@ + m@,
        ShdlcError::PortError(m) => "Port error: "@ + m@,
        ShdlcError::Other(m) => m@,
    }
}

fn u32_hex(n: u32) -> (s: String)
    ensures
        s@ == hex_upper_text(be_u32_bytes(n)),
{
    let bytes = [
        (n / 16777216) as u8,
        (n / 65536 % 256) as u8,
        (n / 256 % 256) as u8,
        (n % 256) as u8,
    ];
    assert(bytes@ =~= be_u32_bytes(n));
    hex_encode(&bytes)
}

impl ShdlcError {
    /// The text that describes the error.
    pub fn to_string(&self) -> (s: String)
        ensures
            s@ == error_text(*self),
    {
        match self {
            ShdlcError::Timeout => String::from_str(
                "Timeout while waiting for response from SHDLC device. Check connection to device and make sure it is powered on.",
            ),
            ShdlcError::ResponseError { message, .. } => {
                let mut s = String::from_str("Invalid data received from the SHDLC device: ");
                s.append(message.as_str());
                s
            },
            ShdlcError::DeviceError { code, message } => {
                let mut s = String::from_str("SHDLC device returned error code ");
                s.append(decimal_string(*code as u64).as_str());
                s.append(": ");
                s.append(message.as_str());
                s
            },
            ShdlcError::FirmwareImageSignatureError(sig) => {
                let mut s = String::from_str("Invalid signature in firmware image: 0x");
                s.append(hex_encode(sig.as_slice()).as_str());
                s
            },
            ShdlcError::FirmwareImageIncompatibilityError { expected, actual } => {
                let mut s = String::from_str("Firmware image for device 0x");
                s.append(u32_hex(*expected).as_str());
                s.append(" not compatible with connected device 0x");
                s.append(u32_hex(*actual).as_str());
                s.append(".");
                s
            },
            ShdlcError::Transport(m) => {
                let mut s = String::from_str("Transport error: ");
                s.append(m.as_str());
                s
            },
            ShdlcError::Io(m) => {
                let mut s = String::from_str("I/O error: ");
                s.append(m.as_str());
                s
            },
            ShdlcError::PortError(m) => {
                let mut s = String::from_str("Port error: ");
                s.append(m.as_str());
                s
            },
            ShdlcError::Other(m) => String::from_str(m.as_str()),
        }
    }

    /// The error for a failed I/O operation: a timeout where the operation
    /// timed out, else an I/O error with the operation's message.
    pub fn io_failure(timed_out: bool, message: String) -> (e: ShdlcError)
        ensures
            timed_out ==> e == ShdlcError::Timeout,
            !timed_out ==> e == ShdlcError::Io(message),
    {
        if timed_out {
            ShdlcError::Timeout
        } else {
            ShdlcError::Io(message)
        }
    }

    /// Build a response error from a message and the raw data that was received.
    pub fn response_error(msg: String, raw_data: Option<Vec<u8>>) -> (e: ShdlcError)
        ensures
            e == (ShdlcError::ResponseError { message: msg, raw_data }),
    {
        ShdlcError::ResponseError { message: msg, raw_data }
    }

    /// Build the device error for an error code reported by the device.
    pub fn device_error(code: u8) -> (e: ShdlcError)
        ensures
            e matches ShdlcError::DeviceError { code: c, message } && c == code && message@
                == device_error_text(code),
    {
        let msg: &str = match code {
            1 => "Illegal data size of the MOSI frame. Either a wrong command was sent, or the device firmware does not support the requested feature.",
            2 => "Unknown command. Check if you sent the correct command and if the firmware on the device supports it.",
            3 => "No access right for this command. Higher access rights are required to execute this command.",
            4 => "Parameter out of range. Check if you sent the correct command parameters and if the firmware on the device supports them.",
            5 => "Wrong checksum received.",
            6 => "Firmware update operation failed. Flash couldn't be written or flash validation failed.",
            _ => "Unknown error.",
        };
        ShdlcError::DeviceError { code, message: String::from_str(msg) }
    }
}

} // verus!
