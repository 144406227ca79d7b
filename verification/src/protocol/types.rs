use vstd::prelude::*;
use crate::protocol::text::{decimal_string, decimal_text};

verus! {

/// Text of a `major.minor` version pair.
pub open spec fn dotted_text(major: u8, minor: u8) -> Seq<char> {
    decimal_text(major as nat) + "."@ + decimal_text(minor as nat)
}

fn dotted_string(major: u8, minor: u8) -> (s: String)
    ensures
        s@ == dotted_text(major, minor),
{
    let mut s = decimal_string(major as u64);
    s.append(".");
    s.append(decimal_string(minor as u64).as_str());
    s
}

/// Represents a firmware version of an SHDLC device.
#[derive(Debug, Clone, Copy, PartialEq, Eq, Hash, Structural)]
pub struct FirmwareVersion {
    pub major: u8,
    pub minor: u8,
    pub debug: bool,
}

impl FirmwareVersion {
    pub fn new(major: u8, minor: u8, debug: bool) -> (v: Self)
        ensures
            v == (FirmwareVersion { major, minor, debug }),
    {
        Self { major, minor, debug }
    }

    /// The text of the version.
    pub open spec fn spec_text(self) -> Seq<char> {
        dotted_text(self.major, self.minor) + if self.debug {
            "-debug"@
        } else {
            Seq::<char>::empty()
        }
    }

    /// The version as text: `major.minor`, with `-debug` appended for debug builds.
    pub fn to_string(&self) -> (s: String)
        ensures
            s@ == self.spec_text(),
    {
        let mut s = dotted_string(self.major, self.minor);
        if self.debug {
            s.append("-debug");
        }
        s
    }
}

/// Represents a hardware version of an SHDLC device.
#[derive(Debug, Clone, Copy, PartialEq, Eq, Hash, Structural)]
pub struct HardwareVersion {
    pub major: u8,
    pub minor: u8,
}

impl HardwareVersion {
    pub fn new(major: u8, minor: u8) -> (v: Self)
        ensures
            v == (HardwareVersion { major, minor }),
    {
        Self { major, minor }
    }

    /// The text of the version.
    pub open spec fn spec_text(self) -> Seq<char> {
        dotted_text(self.major, self.minor)
    }

    /// The version as text: `major.minor`.
    pub fn to_string(&self) -> (s: String)
        ensures
            s@ == self.spec_text(),
    {
        dotted_string(self.major, self.minor)
    }
}

/// Represents a protocol version of an SHDLC device.
#[derive(Debug, Clone, Copy, PartialEq, Eq, Hash, Structural)]
pub struct ProtocolVersion {
    pub major: u8,
    pub minor: u8,
}

impl ProtocolVersion {
    pub fn new(major: u8, minor: u8) -> (v: Self)
        ensures
            v == (ProtocolVersion { major, minor }),
    {
        Self { major, minor }
    }

    /// The text of the version.
    pub open spec fn spec_text(self) -> Seq<char> {
        dotted_text(self.major, self.minor)
    }

    /// The version as text: `major.minor`.
    pub fn to_string(&self) -> (s: String)
        ensures
            s@ == self.spec_text(),
    {
        dotted_string(self.major, self.minor)
    }
}

/// Represents all version numbers of an SHDLC device (Firmware, Hardware, Protocol).
#[derive(Debug, Clone, Copy, PartialEq, Eq, Hash, Structural)]
pub struct Version {
    pub firmware: FirmwareVersion,
    pub hardware: HardwareVersion,
    pub protocol: ProtocolVersion,
}

impl Version {
    pub fn new(firmware: FirmwareVersion, hardware: HardwareVersion, protocol: ProtocolVersion) -> (v:
        Self)
        ensures
            v == (Version { firmware, hardware, protocol }),
    {
        Self { firmware, hardware, protocol }
    }

    /// The text of all three versions.
    pub open spec fn spec_text(self) -> Seq<char> {
        "Firmware "@ + self.firmware.spec_text() + ", Hardware "@ + self.hardware.spec_text()
            + ", Protocol "@ + self.protocol.spec_text()
    }

    /// All three versions as text, for example `Firmware 1.2, Hardware 3.0, Protocol 1.0`.
    pub fn to_string(&self) -> (s: String)
        ensures
            s@ == self.spec_text(),
    {
        let mut s = String::from_str("Firmware ");
        s.append(self.firmware.to_string().as_str());
        s.append(", Hardware ");
        s.append(self.hardware.to_string().as_str());
        s.append(", Protocol ");
        s.append(self.protocol.to_string().as_str());
        s
    }
}

} // verus!
