//! The decisions of loading a ROM into an emulator backend: the iNES header
//! is the source of truth for what was loaded, and a failure of the backend
//! itself is reported as [`EmulatorError::Backend`].

use vstd::prelude::*;
use crate::error::EmulatorError;
use crate::ines::RomInfo;

verus! {

/// The result of a load: the header's description when the backend
/// accepted the ROM, otherwise the backend's message.
pub open spec fn spec_load_outcome(info: RomInfo, backend: Result<(), String>) -> Result<
    RomInfo,
    EmulatorError,
> {
    match backend {
        Ok(()) => Ok(info),
        Err(msg) => Err(EmulatorError::Backend(msg)),
    }
}

/// Combines the parsed header with the backend's answer to loading the ROM.
pub fn finish_rom_load(info: RomInfo, backend: Result<(), String>) -> (r: Result<
    RomInfo,
    EmulatorError,
>)
    ensures
        r == spec_load_outcome(info, backend),
{
    match backend {
        Ok(()) => Ok(info),
        Err(msg) => Err(EmulatorError::Backend(msg)),
    }
}


/// A load the backend accepts reports the header's description unchanged;
/// one it refuses reports the backend's message, untouched, as a backend
/// error.
pub proof fn lemma_load_outcome_table(info: RomInfo, msg: String)
    ensures
        spec_load_outcome(info, Ok(())) == Ok::<RomInfo, EmulatorError>(info),
        spec_load_outcome(info, Err(msg)) == Err::<RomInfo, EmulatorError>(
            EmulatorError::Backend(msg),
        ),
{
}

} // verus!
