//! Errors that can arise while loading or running a ROM.

use vstd::prelude::*;
use crate::text::{append_decimal, dec_chars};
use vstd::string::to_string_from_display_ensures;

verus! {

/// Makes `std::io::Error` known to Verus as an opaque type, so that it can
/// be carried in [`EmulatorError::Io`].
#[verifier::external_type_specification]
#[verifier::external_body]
pub struct ExIoError(std::io::Error);

#[derive(Debug)]
pub enum EmulatorError {
    InvalidINesHeader,
    RomTooSmall(usize),
    UnsupportedMapper(u8),
    Io(std::io::Error),
    Backend(String),
}

impl From<std::io::Error> for EmulatorError {
    fn from(e: std::io::Error) -> (r: Self) {
        EmulatorError::Io(e)
    }
}

impl vstd::std_specs::convert::FromSpecImpl<std::io::Error> for EmulatorError {
    open spec fn obeys_from_spec() -> bool {
        true
    }

    open spec fn from_spec(e: std::io::Error) -> Self {
        EmulatorError::Io(e)
    }
}

/// The text that [`EmulatorError::message`] gives for every variant but
/// `Io`, whose text is the I/O error's own `to_string()`.
pub open spec fn error_text(e: EmulatorError) -> Seq<char> {
    match e {
        EmulatorError::InvalidINesHeader => "invalid iNES header"@,
        EmulatorError::RomTooSmall(n) => "rom too small ("@ + dec_chars(n as nat) + " bytes)"@,
        EmulatorError::UnsupportedMapper(m) => "unsupported mapper "@ + dec_chars(m as nat),
        EmulatorError::Backend(s) => "backend error: "@ + s@,
        EmulatorError::Io(_) => Seq::empty(),
    }
}

impl EmulatorError {
    /// A human-readable description of the error.
    pub fn message(&self) -> (s: String)
        ensures
            !(self is Io) ==> s@ == error_text(*self),
            self matches EmulatorError::Io(e) ==> to_string_from_display_ensures::<std::io::Error>(
                &e,
                s,
            ),
    {
        match self {
            EmulatorError::InvalidINesHeader => String::from_str("invalid iNES header"),
            EmulatorError::RomTooSmall(n) => {
                let mut s = String::from_str("rom too small (");
                append_decimal(&mut s, *n as u64);
                s.append(" bytes)");
                s
            },
            EmulatorError::UnsupportedMapper(m) => {
                let mut s = String::from_str("unsupported mapper ");
                append_decimal(&mut s, *m as u64);
                s
            },
            EmulatorError::Io(e) => e.to_string(),
            EmulatorError::Backend(msg) => {
                let mut s = String::from_str("backend error: ");
                s.append(msg.as_str());
                s
            },
        }
    }
}

} // verus!
