//! Verified core of a binding to an edge inference accelerator's driver.
//!
//! The driver is reached through a native device manager that this crate never
//! calls itself. Everything here goes from plain values to plain values: what
//! is to be handed to the manager is built here, and what the manager answered
//! is taken apart here. The caller makes the native calls in between.

pub mod marshal;
pub mod options;
pub mod tpu_context;

pub use options::{DeviceOptions, NativeOption};
pub use tpu_context::{
    DeviceRecord, DeviceType, EdgeTpuContext, ExternalContext, NativeDevice, OpenRequest,
};

use marshal::{text_from_native, text_of};
use vstd::prelude::*;

verus! {

/// A failure reported to the caller of the binding.
///
/// The driver does not say why a call failed, so neither kind carries a code
/// or a message from it.
#[derive(Debug, Clone, Copy, PartialEq, Eq, Structural)]
pub enum EdgeTPUError {
    /// The device manager handed back no session.
    OpenFailed,
    /// The device manager rejected the requested verbosity level.
    SetVerbosityFailed,
}

impl EdgeTPUError {
    /// The text that describes the failure.
    pub open spec fn spec_message(self) -> Seq<char> {
        match self {
            EdgeTPUError::OpenFailed => "failed to open device"@,
            EdgeTPUError::SetVerbosityFailed => "failed to set verbosity"@,
        }
    }

    /// The text that describes the failure.
    pub fn message(&self) -> (text: String)
        ensures
            text@ == self.spec_message(),
    {
        match self {
            EdgeTPUError::OpenFailed => "failed to open device".to_owned(),
            EdgeTPUError::SetVerbosityFailed => "failed to set verbosity".to_owned(),
        }
    }
}

/// A request to set the device manager's verbosity, ready to be handed over.
#[derive(Debug, Clone, Copy, PartialEq, Eq, Structural)]
pub struct VerbosityRequest {
    /// The level, as the integer the manager takes.
    pub level: i32,
}

/// Asks for the manager's verbosity to be set to `verbosity`.
///
/// Which levels the manager accepts is its own matter: every level is passed
/// on as it is.
pub fn set_verbosity(verbosity: u8) -> (request: VerbosityRequest)
    ensures
        request.level == verbosity,
{
    VerbosityRequest { level: verbosity as i32 }
}

impl VerbosityRequest {
    /// Settles the request with the status the manager answered with: zero
    /// for a level it accepted, anything else for one it rejected.
    pub fn complete(self, status: i32) -> (outcome: Result<(), EdgeTPUError>)
        ensures
            status == 0 ==> outcome == Ok::<(), EdgeTPUError>(()),
            status != 0 ==> outcome == Err::<(), EdgeTPUError>(EdgeTPUError::SetVerbosityFailed),
    {
        if status == 0 {
            Ok(())
        } else {
            Err(EdgeTPUError::SetVerbosityFailed)
        }
    }
}

/// The manager's version, from the bytes of the string it reported.
///
/// This never fails: bytes that are no valid UTF-8 are still read as text.
pub fn version(reply: &Vec<u8>) -> (text: String)
    ensures
        text@ == text_of(reply@),
{
    text_from_native(reply)
}

} // verus!
