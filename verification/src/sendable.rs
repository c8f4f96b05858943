//! What every frame of the protocol can do: go to bytes and come back.

use vstd::prelude::*;
use crate::error::ConverterError;

verus! {

/// The one version of the framing that is defined.
pub open spec fn supported_version() -> Seq<char> {
    "0.0"@
}

/// A value that travels as one frame.
///
/// Both directions are functions of their input alone, stated by `encoded`
/// and `decoded`: a frame, or the message of the error that refuses it.
pub trait Sendable {
    /// What decoding yields.
    type Item: View;

    /// What `to_bytes` makes of this value.
    spec fn encoded(&self) -> Result<Seq<u8>, Seq<char>>;

    /// What `from_bytes` makes of `bytes`.
    spec fn decoded(bytes: Seq<u8>) -> Result<<Self::Item as View>::V, Seq<char>>;

    /// Encodes this value as one frame.
    fn to_bytes(self) -> (frame: Result<Vec<u8>, ConverterError>)
        ensures
            match frame {
                Ok(bytes) => self.encoded() == Ok::<Seq<u8>, Seq<char>>(bytes@),
                Err(error) => self.encoded() == Err::<Seq<u8>, Seq<char>>(error@),
            },
    ;

    /// Decodes one frame. Any byte sequence is taken: what is no frame is
    /// refused with an error.
    fn from_bytes(bytes: &[u8]) -> (value: Result<Self::Item, ConverterError>)
        ensures
            match value {
                Ok(item) => Self::decoded(bytes@) == Ok::<<Self::Item as View>::V, Seq<char>>(
                    item@,
                ),
                Err(error) => Self::decoded(bytes@) == Err::<<Self::Item as View>::V, Seq<char>>(
                    error@,
                ),
            },
    ;
}

} // verus!
