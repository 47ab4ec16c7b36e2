//! The closed set of decode failures: every malformed input maps to exactly
//! one of these, never to a panic.

use vstd::prelude::*;

verus! {

/// One decode failure kind per way an input can be rejected.
#[derive(Clone, Copy, Debug, PartialEq, Eq, Structural)]
pub enum InputError {
    /// A structurally invalid field (bad length sign, bad UTF-8, trailing
    /// bytes, an unsupported version of a known API key).
    ParserError,
    /// Well-formed but unsupported: an API key this broker does not serve, or
    /// a null (-1) length.
    NotImplemented,
    /// The declared frame size is negative.
    InvalidRequestSize,
    /// The declared message-set size is negative.
    InvalidMessageSetSize,
    /// The declared message size is negative.
    InvalidMessageSize,
    /// The stored CRC does not match the checksum of the message body.
    InvalidMessage,
}

impl InputError {
    /// The numeric code of this failure kind; `from_int` is its inverse.
    pub fn to_int(&self) -> (r: u32)
        ensures
            r == self.spec_to_int(),
    {
        match *self {
            InputError::ParserError => 1,
            InputError::NotImplemented => 2,
            InputError::InvalidRequestSize => 3,
            InputError::InvalidMessageSetSize => 4,
            InputError::InvalidMessageSize => 5,
            InputError::InvalidMessage => 6,
        }
    }

    pub open spec fn spec_to_int(self) -> u32 {
        match self {
            InputError::ParserError => 1,
            InputError::NotImplemented => 2,
            InputError::InvalidRequestSize => 3,
            InputError::InvalidMessageSetSize => 4,
            InputError::InvalidMessageSize => 5,
            InputError::InvalidMessage => 6,
        }
    }
}

/// The failure kind a numeric code denotes: the inverse of `to_int` on 1..=6,
/// `None` on every other code.
pub fn from_int(code: u32) -> (r: Option<InputError>)
    ensures
        1 <= code <= 6 ==> (r matches Some(e) && e.spec_to_int() == code),
        !(1 <= code <= 6) ==> r is None,
{
    match code {
        1 => Option::Some(InputError::ParserError),
        2 => Option::Some(InputError::NotImplemented),
        3 => Option::Some(InputError::InvalidRequestSize),
        4 => Option::Some(InputError::InvalidMessageSetSize),
        5 => Option::Some(InputError::InvalidMessageSize),
        6 => Option::Some(InputError::InvalidMessage),
        _ => Option::None,
    }
}

} // verus!
