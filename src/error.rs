use crate::json::{int_text, push_uint};
use vstd::prelude::*;
use vstd::string::StringExecFns;

verus! {

/// Every way in which an operation of this library can fail.
#[derive(Clone, Copy, Debug, PartialEq, Eq, Structural)]
pub enum RichPresenceError {
    /// No usable base directory, or no candidate socket accepted a connection.
    CouldNotConnect,
    /// A frame was malformed: wrong header size, invalid UTF-8 or invalid JSON.
    RecvInvalidPacket,
    /// Writing failed, or no stream was open.
    WriteSocketFailed,
    /// Reading failed, or no stream was open.
    ReadSocketFailed,
    /// Flushing the stream failed while closing.
    FlushSocketFailed,
    /// A button label or url was empty or too long.
    ButtonCreateInvalidValue,
    /// More than two buttons were attached; carries how many.
    TooManyButtons(usize),
}

/// The message that describes an error.
pub open spec fn message_text(e: RichPresenceError) -> Seq<char> {
    match e {
        RichPresenceError::CouldNotConnect => "Could not connect to IPC socket"@,
        RichPresenceError::RecvInvalidPacket => "Received invalid packet"@,
        RichPresenceError::WriteSocketFailed => "Failed to write to socket"@,
        RichPresenceError::ReadSocketFailed => "Failed to read from socket"@,
        RichPresenceError::FlushSocketFailed => "Failed to flush socket"@,
        RichPresenceError::ButtonCreateInvalidValue => "Invalid value when creating button"@,
        RichPresenceError::TooManyButtons(n) => "Too many ("@ + int_text(n as int)
            + ") buttons provided to activity"@,
    }
}

impl RichPresenceError {
    /// A one-line description of the error.
    pub fn message(&self) -> (r: String)
        ensures
            r@ == message_text(*self),
    {
        match self {
            RichPresenceError::CouldNotConnect => String::from_str("Could not connect to IPC socket"),
            RichPresenceError::RecvInvalidPacket => String::from_str("Received invalid packet"),
            RichPresenceError::WriteSocketFailed => String::from_str("Failed to write to socket"),
            RichPresenceError::ReadSocketFailed => String::from_str("Failed to read from socket"),
            RichPresenceError::FlushSocketFailed => String::from_str("Failed to flush socket"),
            RichPresenceError::ButtonCreateInvalidValue => String::from_str(
                "Invalid value when creating button",
            ),
            RichPresenceError::TooManyButtons(n) => {
                let mut s = String::from_str("Too many (");
                push_uint(&mut s, *n as u64);
                s.append(") buttons provided to activity");
                s
            },
        }
    }

    /// Whether the error means that the peer could not be reached: callers
    /// report such an outage once rather than on every failed update.
    pub fn is_disconnect(&self) -> (r: bool)
        ensures
            r == (*self is CouldNotConnect || *self is WriteSocketFailed),
    {
        match self {
            RichPresenceError::CouldNotConnect | RichPresenceError::WriteSocketFailed => true,
            _ => false,
        }
    }
}

} // verus!
