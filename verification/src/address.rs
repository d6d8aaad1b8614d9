//! Addresses in the target process: pointer-sized values read out of its
//! memory, and the overflow-checked step from a pointer to the next address.
//!
//! A pointer is read least significant byte first, the order in which every
//! Windows target stores it.

use crate::error::MemoryError;
use vstd::arithmetic::power::pow;
use vstd::prelude::*;

verus! {

/// How many bytes a native pointer occupies.
pub open spec fn pointer_bytes() -> nat {
    (usize::BITS / 8) as nat
}

/// The number a byte string stands for when its first byte is the least
/// significant one.
pub open spec fn little_endian(bytes: Seq<u8>) -> nat
    decreases bytes.len(),
{
    if bytes.len() == 0 {
        0
    } else {
        bytes[0] as nat + 256 * little_endian(bytes.drop_first())
    }
}

/// The pointer held by a block of bytes read from the target: defined only
/// for blocks of exactly pointer size.
pub open spec fn pointer_value(bytes: Seq<u8>) -> Option<usize> {
    if bytes.len() == pointer_bytes() {
        Some(little_endian(bytes) as usize)
    } else {
        None
    }
}

/// The address one hop further: the pointer plus the offset, unless the sum
/// leaves the address range.
pub open spec fn offset_address(pointer: usize, offset: usize) -> Result<usize, MemoryError> {
    if pointer + offset <= usize::MAX {
        Ok((pointer + offset) as usize)
    } else {
        Err(MemoryError::AddressOverflow)
    }
}

/// A little-endian number of `n` bytes is below `256^n`.
pub proof fn lemma_little_endian_bound(bytes: Seq<u8>)
    ensures
        little_endian(bytes) < pow(256, bytes.len()),
    decreases bytes.len(),
{
    reveal(pow);
    if bytes.len() > 0 {
        lemma_little_endian_bound(bytes.drop_first());
        let rest = little_endian(bytes.drop_first()) as int;
        let top = pow(256, bytes.drop_first().len());
        assert(pow(256, bytes.len()) == 256 * top);
        assert(256 * (rest + 1) <= 256 * top) by (nonlinear_arith)
            requires
                rest + 1 <= top,
        ;
    }
}

/// Every block of pointer size holds a value that fits in an address, so the
/// cast in [`pointer_value`] loses nothing.
pub proof fn lemma_pointer_fits(bytes: Seq<u8>)
    requires
        bytes.len() == pointer_bytes(),
    ensures
        little_endian(bytes) <= usize::MAX,
        pointer_value(bytes) == Some(little_endian(bytes) as usize),
        pointer_value(bytes)->0 as nat == little_endian(bytes),
{
    lemma_little_endian_bound(bytes);
    vstd::layout::unsigned_int_max_values();
    broadcast use vstd::layout::layout_of_primitives;
    assert(vstd::layout::size_of::<usize>() == bytes.len());
}

/// The size in bytes of a pointer on this machine.
pub fn pointer_width() -> (width: usize)
    ensures
        width == pointer_bytes(),
        width == 4 || width == 8,
{
    (usize::BITS / 8) as usize
}

/// Reads a pointer out of a block of bytes that came from the target.
///
/// A block of any other size than a pointer's holds none.
pub fn decode_pointer(bytes: &[u8]) -> (pointer: Option<usize>)
    ensures
        pointer == pointer_value(bytes@),
        pointer is Some ==> pointer->0 as nat == little_endian(bytes@),
{
    if bytes.len() != pointer_width() {
        return None;
    }
    let mut value: u64 = 0;
    let mut at: usize = bytes.len();
    proof {
        reveal(pow);
    }
    while at > 0
        invariant
            at <= bytes.len() <= 8,
            value as nat == little_endian(bytes@.subrange(at as int, bytes.len() as int)),
            value < pow(256, (bytes.len() - at) as nat),
        decreases at,
    {
        at = at - 1;
        let ghost tail = bytes@.subrange(at as int, bytes.len() as int);
        proof {
            assert(tail.drop_first() =~= bytes@.subrange(at as int + 1, bytes.len() as int));
            lemma_little_endian_bound(tail);
            lemma_pow_256_at_most_8(tail.len());
        }
        value = value * 256 + bytes[at] as u64;
    }
    proof {
        assert(bytes@.subrange(0, bytes.len() as int) =~= bytes@);
        lemma_pointer_fits(bytes@);
    }
    Some(value as usize)
}

/// Adds an offset to a pointer, reporting the sum that leaves the address
/// range instead of wrapping.
pub fn add_offset(pointer: usize, offset: usize) -> (address: Result<usize, MemoryError>)
    ensures
        address == offset_address(pointer, offset),
{
    match pointer.checked_add(offset) {
        Some(sum) => Ok(sum),
        None => Err(MemoryError::AddressOverflow),
    }
}

/// Eight bytes hold no more than 64 bits.
proof fn lemma_pow_256_at_most_8(n: nat)
    requires
        n <= 8,
    ensures
        pow(256, n) <= 0x1_0000_0000_0000_0000,
{
    reveal_with_fuel(pow, 9);
}

} // verus!
