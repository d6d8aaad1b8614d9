//! Finding the load address of a module by its name.
//!
//! The host lists a process's modules into an array of bounded size and says
//! how many bytes the full list would take; each module's base name is then
//! retrieved into a buffer of fixed size. A name that does not fit arrives
//! cut off, and is compared as it arrived.

use crate::address::{pointer_bytes, pointer_width};
use vstd::prelude::*;
use vstd::slice::slice_subrange;
use vstd::utf8::encode_utf8;

verus! {

/// How many module handles one listing asks for at most.
pub const MODULE_CAPACITY: usize = 1024;

/// The size of the buffer a module's base name is retrieved into.
pub const MODULE_NAME_CAPACITY: usize = 256;

/// How many entries of a listing are looked at: as many handles as the bytes
/// needed amount to, but no more than the host handed over and no more than
/// a listing asks for.
pub open spec fn listed_count(handles: Seq<usize>, bytes_needed: u32) -> nat {
    let reported = bytes_needed as nat / pointer_bytes();
    let held = if handles.len() <= MODULE_CAPACITY {
        handles.len()
    } else {
        MODULE_CAPACITY as nat
    };
    if reported <= held {
        reported
    } else {
        held
    }
}

/// The modules of a listing, in the host's order.
pub open spec fn listed_modules(handles: Seq<usize>, bytes_needed: u32) -> Seq<usize> {
    handles.take(listed_count(handles, bytes_needed) as int)
}

/// A base name as far as the retrieval buffer holds it.
pub open spec fn retrieved_name(written: Seq<u8>) -> Seq<u8> {
    if written.len() <= MODULE_NAME_CAPACITY {
        written
    } else {
        written.take(MODULE_NAME_CAPACITY as int)
    }
}

/// Whether the bytes retrieved for a module are the name looked for. A module
/// whose name could not be retrieved (no bytes) matches no name.
pub open spec fn names_module(written: Seq<u8>, wanted: Seq<u8>) -> bool {
    written.len() > 0 && retrieved_name(written) == wanted
}

/// Counts the entries of a listing that are to be looked at.
pub fn count_listed(handles: &[usize], bytes_needed: u32) -> (count: usize)
    ensures
        count == listed_count(handles@, bytes_needed),
        count <= handles.len(),
        count <= MODULE_CAPACITY,
{
    let reported = bytes_needed as usize / pointer_width();
    let held = if handles.len() <= MODULE_CAPACITY {
        handles.len()
    } else {
        MODULE_CAPACITY
    };
    if reported <= held {
        reported
    } else {
        held
    }
}

/// Whether two byte strings are the same.
pub fn same_bytes(left: &[u8], right: &[u8]) -> (same: bool)
    ensures
        same == (left@ == right@),
{
    if left.len() != right.len() {
        return false;
    }
    let mut at: usize = 0;
    while at < left.len()
        invariant
            at <= left.len() == right.len(),
            left@.take(at as int) == right@.take(at as int),
        decreases left.len() - at,
    {
        if left[at] != right[at] {
            return false;
        }
        proof {
            assert(left@.take(at + 1) =~= left@.take(at as int).push(left@[at as int]));
            assert(right@.take(at + 1) =~= right@.take(at as int).push(right@[at as int]));
        }
        at = at + 1;
    }
    proof {
        assert(left@.take(at as int) =~= left@);
        assert(right@.take(at as int) =~= right@);
    }
    true
}

/// Decides whether the bytes retrieved for a module are the name `wanted`.
pub fn module_is_named(written: &[u8], wanted: &str) -> (named: bool)
    ensures
        named == names_module(written@, encode_utf8(wanted@)),
{
    if written.len() == 0 {
        return false;
    }
    let kept = if written.len() <= MODULE_NAME_CAPACITY {
        written
    } else {
        slice_subrange(written, 0, MODULE_NAME_CAPACITY)
    };
    same_bytes(kept, wanted.as_bytes())
}

} // verus!
