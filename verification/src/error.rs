//! The recoverable errors of the protocol.

use vstd::prelude::*;
use vstd::string::StringExecFns;
use crate::registry::IpAddress;

verus! {

/// A frame could not be written or read: its version is not known, it is cut
/// short, or a handshake frame is no text or lacks a field. The offending
/// frame is dropped; nothing else is affected.
#[derive(Debug, PartialEq)]
pub enum ConverterError {
    /// The conversion between a value and its bytes failed; the message says
    /// why.
    BytesConvertError(String),
}

impl View for ConverterError {
    type V = Seq<char>;

    /// The message that the error carries.
    open spec fn view(&self) -> Seq<char> {
        match self {
            ConverterError::BytesConvertError(message) => message@,
        }
    }
}

impl ConverterError {
    /// The text that introduces the message in `describe`.
    pub open spec fn describe_prefix() -> Seq<char> {
        "Error converting bytes: "@
    }

    /// A line for a log: the fixed introduction, then the message.
    pub fn describe(&self) -> (text: String)
        ensures
            text@ == Self::describe_prefix() + self@,
    {
        let mut text = String::from_str("Error converting bytes: ");
        match self {
            ConverterError::BytesConvertError(message) => {
                text.append(message.as_str());
            },
        }
        text
    }
}

/// A measurement arrived from an address that never completed a handshake.
/// The datagram is dropped and nothing is stored for it.
#[derive(Debug, PartialEq, Eq, Clone, Copy)]
pub enum ConfigError {
    /// The server holds no session for this address.
    NotConfigured(IpAddress),
}

} // verus!
