//! Pointer chains: from a base address through a list of offsets, each hop
//! reading the pointer stored at the current address and adding the next
//! offset to it.

use crate::address::{add_offset, decode_pointer, offset_address, pointer_bytes, pointer_value};
use crate::error::MemoryError;
use crate::protocol::{Reply, ReplyView, RequestView};
use vstd::prelude::*;

verus! {

/// One hop: the host's reply to the read of a pointer, and the offset to add.
///
/// The hop fails to dereference unless the reply carries a block of exactly
/// pointer size, and overflows where pointer plus offset leaves the address
/// range.
pub open spec fn hop(reply: ReplyView, offset: usize) -> Result<usize, MemoryError> {
    match reply {
        ReplyView::Bytes(bytes) => match pointer_value(bytes) {
            Some(pointer) => offset_address(pointer, offset),
            None => Err(MemoryError::DereferenceFailed),
        },
        _ => Err(MemoryError::DereferenceFailed),
    }
}

/// Takes one hop: decodes the pointer that the host read and adds `offset`.
pub fn follow_pointer(reply: &Reply, offset: usize) -> (address: Result<usize, MemoryError>)
    ensures
        address == hop(reply@, offset),
{
    match reply {
        Reply::Bytes(bytes) => match decode_pointer(bytes.as_slice()) {
            Some(pointer) => add_offset(pointer, offset),
            None => Err(MemoryError::DereferenceFailed),
        },
        _ => Err(MemoryError::DereferenceFailed),
    }
}

/// The target's memory as far as a walk sees it: what the host answers to
/// the read of a pointer at each address.
pub type Memory = spec_fn(usize) -> ReplyView;

/// The address a chain ends at: from `base`, each offset in turn is added to
/// the pointer stored at the address reached so far. The first hop that fails
/// ends the walk with its error.
pub open spec fn resolve(memory: Memory, base: usize, offsets: Seq<usize>) -> Result<
    usize,
    MemoryError,
>
    decreases offsets.len(),
{
    if offsets.len() == 0 {
        Ok(base)
    } else {
        match hop(memory(base), offsets[0]) {
            Ok(address) => resolve(memory, address, offsets.drop_first()),
            Err(error) => Err(error),
        }
    }
}

/// The request that reads the pointer stored at `address`.
pub open spec fn dereference(address: usize) -> RequestView {
    RequestView::Read { address, size: pointer_bytes() as usize }
}

/// The reads a walk makes, in order: one for each hop up to and including the
/// first that fails.
pub open spec fn dereferences(memory: Memory, base: usize, offsets: Seq<usize>) -> Seq<
    RequestView,
>
    decreases offsets.len(),
{
    if offsets.len() == 0 {
        seq![]
    } else {
        seq![dereference(base)] + match hop(memory(base), offsets[0]) {
            Ok(address) => dereferences(memory, address, offsets.drop_first()),
            Err(_) => seq![],
        }
    }
}

/// A chain without offsets ends at its base, and nothing is read on the way.
pub proof fn law_empty_chain(memory: Memory, base: usize)
    ensures
        resolve(memory, base, Seq::empty()) == Ok::<usize, MemoryError>(base),
        dereferences(memory, base, Seq::empty()) == Seq::<RequestView>::empty(),
{
}

/// A chain of two parts ends where the second part ends when it starts at
/// the end of the first; where the first part fails, so does the whole, with
/// the same error.
pub proof fn law_chain_composes(
    memory: Memory,
    base: usize,
    first: Seq<usize>,
    second: Seq<usize>,
)
    ensures
        resolve(memory, base, first + second) == match resolve(memory, base, first) {
            Ok(middle) => resolve(memory, middle, second),
            Err(error) => Err(error),
        },
    decreases first.len(),
{
    if first.len() == 0 {
        assert(first + second =~= second);
    } else {
        assert((first + second).drop_first() =~= first.drop_first() + second);
        match hop(memory(base), first[0]) {
            Ok(address) => law_chain_composes(memory, address, first.drop_first(), second),
            Err(_) => {},
        }
    }
}

/// Resolving a chain is taking its hops one by one: the chain with one more
/// offset ends one hop behind the end of the shorter chain.
pub proof fn law_chain_is_sequential_hops(
    memory: Memory,
    base: usize,
    offsets: Seq<usize>,
    offset: usize,
)
    ensures
        resolve(memory, base, offsets.push(offset)) == match resolve(memory, base, offsets) {
            Ok(address) => hop(memory(address), offset),
            Err(error) => Err(error),
        },
{
    law_chain_composes(memory, base, offsets, seq![offset]);
    assert(offsets + seq![offset] =~= offsets.push(offset));
    match resolve(memory, base, offsets) {
        Ok(address) => {
            let last = seq![offset];
            assert(last.drop_first() =~= Seq::<usize>::empty());
            match hop(memory(address), offset) {
                Ok(end) => {
                    assert(resolve(memory, end, last.drop_first()) == Ok::<usize, MemoryError>(
                        end,
                    ));
                },
                Err(_) => {},
            }
        },
        Err(_) => {},
    }
}

/// The address reached by taking the hops by hand, one after the other: the
/// hops for all offsets but the last are taken first, and the last hop starts
/// where they ended.
pub open spec fn hop_by_hop(memory: Memory, base: usize, offsets: Seq<usize>) -> Result<
    usize,
    MemoryError,
>
    decreases offsets.len(),
{
    if offsets.len() == 0 {
        Ok(base)
    } else {
        match hop_by_hop(memory, base, offsets.drop_last()) {
            Ok(address) => hop(memory(address), offsets.last()),
            Err(error) => Err(error),
        }
    }
}

/// Resolving a chain gives what taking its hops by hand gives: the same
/// address where every pointer on the way can be read, and otherwise the
/// same error.
pub proof fn law_resolve_is_hop_by_hop(memory: Memory, base: usize, offsets: Seq<usize>)
    ensures
        resolve(memory, base, offsets) == hop_by_hop(memory, base, offsets),
    decreases offsets.len(),
{
    if offsets.len() > 0 {
        law_resolve_is_hop_by_hop(memory, base, offsets.drop_last());
        law_chain_is_sequential_hops(memory, base, offsets.drop_last(), offsets.last());
        assert(offsets.drop_last().push(offsets.last()) =~= offsets);
    }
}

/// A walk whose hops all go through reads one pointer for each offset.
pub proof fn law_full_walk_reads_every_pointer(memory: Memory, base: usize, offsets: Seq<usize>)
    requires
        resolve(memory, base, offsets) is Ok,
    ensures
        dereferences(memory, base, offsets).len() == offsets.len(),
    decreases offsets.len(),
{
    if offsets.len() > 0 {
        match hop(memory(base), offsets[0]) {
            Ok(address) => law_full_walk_reads_every_pointer(
                memory,
                address,
                offsets.drop_first(),
            ),
            Err(_) => {},
        }
    }
}

/// A walk stops at the first hop that fails, whether the pointer cannot be
/// read or the sum overflows: where the hops before hop `failing` go through
/// and that hop fails, the whole chain fails with its error, and the read for
/// that hop is the last one made.
pub proof fn law_failed_hop_ends_walk(
    memory: Memory,
    base: usize,
    offsets: Seq<usize>,
    failing: int,
)
    requires
        0 <= failing < offsets.len(),
        resolve(memory, base, offsets.take(failing)) is Ok,
        hop(memory(resolve(memory, base, offsets.take(failing))->Ok_0), offsets[failing]) is Err,
    ensures
        resolve(memory, base, offsets) == Err::<usize, MemoryError>(
            hop(
                memory(resolve(memory, base, offsets.take(failing))->Ok_0),
                offsets[failing],
            )->Err_0,
        ),
        dereferences(memory, base, offsets).len() == failing + 1,
    decreases failing,
{
    if failing == 0 {
        assert(offsets.take(0) =~= Seq::<usize>::empty());
    } else {
        assert(offsets.take(failing).drop_first() =~= offsets.drop_first().take(failing - 1));
        assert(offsets.take(failing)[0] == offsets[0]);
        match hop(memory(base), offsets[0]) {
            Ok(address) => {
                law_failed_hop_ends_walk(memory, address, offsets.drop_first(), failing - 1);
            },
            Err(_) => {},
        }
    }
}

/// Overflow is detected: where the hops before hop `failing` go through and
/// the pointer read for that hop plus its offset is more than the largest
/// address, the chain fails with `AddressOverflow`, and no pointer is read
/// after that one.
pub proof fn law_overflow_ends_walk(
    memory: Memory,
    base: usize,
    offsets: Seq<usize>,
    failing: int,
    pointer: usize,
)
    requires
        0 <= failing < offsets.len(),
        resolve(memory, base, offsets.take(failing)) is Ok,
        memory(resolve(memory, base, offsets.take(failing))->Ok_0) matches ReplyView::Bytes(bytes)
            && pointer_value(bytes) == Some(pointer),
        pointer + offsets[failing] > usize::MAX,
    ensures
        resolve(memory, base, offsets) == Err::<usize, MemoryError>(MemoryError::AddressOverflow),
        dereferences(memory, base, offsets).len() == failing + 1,
{
    law_failed_hop_ends_walk(memory, base, offsets, failing);
}

/// A pointer that cannot be read ends the walk: where the hops before hop
/// `failing` go through and the host's reply for that hop holds no pointer,
/// the chain fails with `DereferenceFailed`, and no pointer is read after
/// that one.
pub proof fn law_unreadable_pointer_ends_walk(
    memory: Memory,
    base: usize,
    offsets: Seq<usize>,
    failing: int,
)
    requires
        0 <= failing < offsets.len(),
        resolve(memory, base, offsets.take(failing)) is Ok,
        !(memory(resolve(memory, base, offsets.take(failing))->Ok_0) matches ReplyView::Bytes(
            bytes,
        ) && pointer_value(bytes) is Some),
    ensures
        resolve(memory, base, offsets) == Err::<usize, MemoryError>(
            MemoryError::DereferenceFailed,
        ),
        dereferences(memory, base, offsets).len() == failing + 1,
{
    law_failed_hop_ends_walk(memory, base, offsets, failing);
}

} // verus!
