//! The ways in which reading a backup can fail.

use vstd::prelude::*;

verus! {

/// Every failure is terminal for the stream it occurred on.
#[derive(Clone, Copy, Debug, PartialEq, Eq, Structural)]
pub enum Error {
    /// The passphrase is not made of exactly thirty decimal digits, or an
    /// option has a value that is not understood.
    Config,
    /// The input ended in the middle of a frame or of a blob body.
    Io,
    /// The cipher library reported a fault or gave a result of the wrong size.
    Crypto,
    /// The authentication tag of a frame or of a blob body does not match.
    Mac,
    /// A record with no or several variants, an unknown parameter shape, a
    /// broken field encoding, or a frame too short to hold its tag.
    MalformedFrame,
    /// A declared length is above the configured maximum.
    SanityLimit,
    /// A header after the first position.
    UnexpectedHeader,
    /// The input ended at a frame boundary before an end record was seen.
    UnexpectedEnd,
    /// The first frame is not a usable header.
    InvalidHeader,
}

impl Error {
    /// A short description for messages to the user.
    pub fn message(&self) -> (r: &'static str)
        ensures
            r@ == self.spec_message()@,
    {
        match self {
            Error::Config => "invalid configuration: the passphrase must be 30 digits",
            Error::Io => "unexpected end of input inside a frame",
            Error::Crypto => "the cipher library reported a fault",
            Error::Mac => "authentication failed",
            Error::MalformedFrame => "malformed frame",
            Error::SanityLimit => "frame length above the limit, likely a wrong passphrase",
            Error::UnexpectedHeader => "unexpected header found",
            Error::UnexpectedEnd => "input ended without an end frame",
            Error::InvalidHeader => "first frame is not a header",
        }
    }

    /// The text that `message` returns.
    pub open spec fn spec_message(&self) -> &'static str {
        match self {
            Error::Config => "invalid configuration: the passphrase must be 30 digits",
            Error::Io => "unexpected end of input inside a frame",
            Error::Crypto => "the cipher library reported a fault",
            Error::Mac => "authentication failed",
            Error::MalformedFrame => "malformed frame",
            Error::SanityLimit => "frame length above the limit, likely a wrong passphrase",
            Error::UnexpectedHeader => "unexpected header found",
            Error::UnexpectedEnd => "input ended without an end frame",
            Error::InvalidHeader => "first frame is not a header",
        }
    }
}

} // verus!
