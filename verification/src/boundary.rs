//! The plain values handed to a caller that knows nothing of errors: bytes
//! that are empty on failure, a flag, an absent process, a message.

use crate::error::MemoryError;
use crate::operation::{outcome_view, Outcome, OutcomeView, Success, SuccessView};
use vstd::prelude::*;

verus! {

/// The message that stands for an error.
pub open spec fn error_text(error: MemoryError) -> Seq<char> {
    match error {
        MemoryError::ProcessOpenFailed => "Failed to open process"@,
        MemoryError::ProcessNotFound => "Process not found"@,
        MemoryError::ModuleNotFound => "Module not found"@,
        MemoryError::DereferenceFailed => "Failed to read pointer"@,
        MemoryError::AddressOverflow => "Address overflow"@,
        MemoryError::TransferFailed => "Failed to transfer memory"@,
        MemoryError::AllocationFailed => "Failed to allocate memory"@,
    }
}

/// The message for an outcome that succeeded with something other than an
/// address.
pub open spec fn no_address_text() -> Seq<char> {
    "No address"@
}

/// The bytes of an outcome: those that were read, or none at all.
pub open spec fn outcome_bytes(outcome: OutcomeView) -> Seq<u8> {
    match outcome {
        Ok(SuccessView::Bytes(bytes)) => bytes,
        _ => Seq::empty(),
    }
}

/// The process of an outcome, if it found one.
pub open spec fn outcome_process(outcome: OutcomeView) -> Option<u32> {
    match outcome {
        Ok(SuccessView::Process(pid)) => Some(pid),
        _ => None,
    }
}

/// The address of an outcome, or the message that says why there is none.
pub open spec fn outcome_address(outcome: OutcomeView) -> Result<usize, Seq<char>> {
    match outcome {
        Ok(SuccessView::Address(address)) => Ok(address),
        Ok(_) => Err(no_address_text()),
        Err(error) => Err(error_text(error)),
    }
}

impl MemoryError {
    /// The message that stands for this error.
    pub fn message(&self) -> (text: &'static str)
        ensures
            text@ == error_text(*self),
    {
        match self {
            MemoryError::ProcessOpenFailed => "Failed to open process",
            MemoryError::ProcessNotFound => "Process not found",
            MemoryError::ModuleNotFound => "Module not found",
            MemoryError::DereferenceFailed => "Failed to read pointer",
            MemoryError::AddressOverflow => "Address overflow",
            MemoryError::TransferFailed => "Failed to transfer memory",
            MemoryError::AllocationFailed => "Failed to allocate memory",
        }
    }
}

/// Flattens the outcome of a read: the bytes, or an empty sequence where the
/// operation failed.
pub fn bytes_or_empty(outcome: Outcome) -> (bytes: Vec<u8>)
    ensures
        bytes@ == outcome_bytes(outcome_view(outcome)),
{
    match outcome {
        Ok(Success::Bytes(bytes)) => bytes,
        _ => Vec::new(),
    }
}

/// Flattens the outcome of a write: whether the data was written.
pub fn was_written(outcome: &Outcome) -> (written: bool)
    ensures
        written == (outcome_view(*outcome) == Ok::<SuccessView, MemoryError>(
            SuccessView::Written,
        )),
{
    match outcome {
        Ok(Success::Written) => true,
        _ => false,
    }
}

/// Flattens the outcome of a search for a process: its identifier, or
/// nothing.
pub fn process_or_none(outcome: &Outcome) -> (process: Option<u32>)
    ensures
        process == outcome_process(outcome_view(*outcome)),
{
    match outcome {
        Ok(Success::Process(pid)) => Some(*pid),
        _ => None,
    }
}

/// Flattens the outcome of a module lookup or an allocation: the address, or
/// a message.
pub fn address_or_message(outcome: &Outcome) -> (address: Result<usize, String>)
    ensures
        match outcome_address(outcome_view(*outcome)) {
            Ok(found) => address == Ok::<usize, String>(found),
            Err(text) => address is Err && address->Err_0@ == text,
        },
{
    match outcome {
        Ok(Success::Address(address)) => Ok(*address),
        Ok(_) => Err("No address".to_string()),
        Err(error) => Err(error.message().to_string()),
    }
}

} // verus!
