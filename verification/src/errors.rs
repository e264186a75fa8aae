//! Error taxonomy of the session commands.

use vstd::prelude::*;

verus! {

/// The configuration parameter that a rejected open named as invalid.
#[derive(Clone, Copy, Debug, PartialEq, Eq, Structural)]
pub enum ConfigParam {
    DataBits,
    StopBits,
    Parity,
}

/// What a session command can fail with.
///
/// `DeviceError` and `WriteError` carry the full message that the device layer
/// produced; the other variants have fixed messages.
#[derive(Clone, Debug)]
pub enum SerialError {
    /// `open` was called while a port is already held.
    AlreadyOpen,
    /// `open` was called with a parameter outside its legal set.
    InvalidConfig(ConfigParam),
    /// `send` was called while no port is held.
    PortNotOpen,
    /// The device could not be acquired.
    DeviceError(String),
    /// A write or flush against the open device failed; the port stays open.
    WriteError(String),
}

/// The user-facing message of each error.
pub open spec fn spec_message(e: SerialError) -> Seq<char> {
    match e {
        SerialError::AlreadyOpen => "Port is already open"@,
        SerialError::InvalidConfig(ConfigParam::DataBits) => "Invalid data bits"@,
        SerialError::InvalidConfig(ConfigParam::StopBits) => (
            "Invalid stop bits (only 1 and 2 supported)"@
        ),
        SerialError::InvalidConfig(ConfigParam::Parity) => "Invalid parity"@,
        SerialError::PortNotOpen => "Port is not open"@,
        SerialError::DeviceError(m) => m@,
        SerialError::WriteError(m) => m@,
    }
}

impl SerialError {
    /// The user-facing message of this error.
    pub fn message(&self) -> (m: String)
        ensures
            m@ == spec_message(*self),
    {
        match self {
            SerialError::AlreadyOpen => String::from_str("Port is already open"),
            SerialError::InvalidConfig(ConfigParam::DataBits) => String::from_str(
                "Invalid data bits",
            ),
            SerialError::InvalidConfig(ConfigParam::StopBits) => String::from_str(
                "Invalid stop bits (only 1 and 2 supported)",
            ),
            SerialError::InvalidConfig(ConfigParam::Parity) => String::from_str("Invalid parity"),
            SerialError::PortNotOpen => String::from_str("Port is not open"),
            SerialError::DeviceError(m) => m.clone(),
            SerialError::WriteError(m) => m.clone(),
        }
    }
}

} // verus!
