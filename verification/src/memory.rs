//! Reading, writing and allocating: what each yields, given the host's reply
//! to the one call it makes.

use crate::error::MemoryError;
use crate::operation::{outcome_view, Outcome, OutcomeView, Success, SuccessView};
use crate::protocol::{Reply, ReplyView};
use vstd::prelude::*;

verus! {

/// What a read of `size` bytes yields: the bytes of the reply where it
/// carries exactly `size` of them; anything else, a short transfer too, is a
/// failed transfer.
pub open spec fn read_outcome(reply: ReplyView, size: usize) -> OutcomeView {
    match reply {
        ReplyView::Bytes(bytes) if bytes.len() == size => Ok(SuccessView::Bytes(bytes)),
        _ => Err(MemoryError::TransferFailed),
    }
}

/// What a write yields: success where the host reports it, a failed
/// transfer otherwise.
pub open spec fn write_outcome(reply: ReplyView) -> OutcomeView {
    match reply {
        ReplyView::Done => Ok(SuccessView::Written),
        _ => Err(MemoryError::TransferFailed),
    }
}

/// What an allocation yields: the base of the new region where the reply
/// carries an address other than null.
pub open spec fn allocate_outcome(reply: ReplyView) -> OutcomeView {
    match reply {
        ReplyView::Address(address) if address != 0 => Ok(SuccessView::Address(address)),
        _ => Err(MemoryError::AllocationFailed),
    }
}

/// Judges the reply to a read of `size` bytes.
pub fn finish_read(reply: Reply, size: usize) -> (outcome: Outcome)
    ensures
        outcome_view(outcome) == read_outcome(reply@, size),
{
    match reply {
        Reply::Bytes(bytes) => {
            if bytes.len() == size {
                Ok(Success::Bytes(bytes))
            } else {
                Err(MemoryError::TransferFailed)
            }
        },
        _ => Err(MemoryError::TransferFailed),
    }
}

/// Judges the reply to a write.
pub fn finish_write(reply: Reply) -> (outcome: Outcome)
    ensures
        outcome_view(outcome) == write_outcome(reply@),
{
    match reply {
        Reply::Done => Ok(Success::Written),
        _ => Err(MemoryError::TransferFailed),
    }
}

/// Judges the reply to an allocation.
pub fn finish_allocate(reply: Reply) -> (outcome: Outcome)
    ensures
        outcome_view(outcome) == allocate_outcome(reply@),
{
    match reply {
        Reply::Address(address) => {
            if address != 0 {
                Ok(Success::Address(address))
            } else {
                Err(MemoryError::AllocationFailed)
            }
        },
        _ => Err(MemoryError::AllocationFailed),
    }
}

} // verus!
