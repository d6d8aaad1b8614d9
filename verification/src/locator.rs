//! Finding a process by the name of its executable.
//!
//! The host reports each process with a fixed-size buffer of UTF-16 code
//! units: the executable's name, padded with NULs. What is compared with the
//! name looked for is the file-name component of that buffer's text: what
//! follows the last path separator, once the padding is cut off.

use vstd::prelude::*;
use vstd::slice::slice_subrange;

verus! {

/// The text that a sequence of UTF-16 code units decodes to, each unpaired
/// surrogate giving U+FFFD.
pub uninterp spec fn utf16_lossy(units: Seq<u16>) -> Seq<char>;

/// Whether a code unit separates the components of a path: `\` or `/`.
pub open spec fn is_separator(unit: u16) -> bool {
    unit == 0x5C || unit == 0x2F
}

/// The length of a buffer without the NULs at its end.
pub open spec fn trimmed_len(units: Seq<u16>) -> nat
    decreases units.len(),
{
    if units.len() > 0 && units.last() == 0 {
        trimmed_len(units.drop_last())
    } else {
        units.len()
    }
}

/// Where the last component of a path begins: behind its last separator, or
/// at the start where it has none.
pub open spec fn file_name_start(path: Seq<u16>) -> nat
    decreases path.len(),
{
    if path.len() == 0 {
        0
    } else if is_separator(path.last()) {
        path.len()
    } else {
        file_name_start(path.drop_last())
    }
}

/// The code units of an executable's file name: the buffer without its
/// trailing NULs and without anything up to the last separator.
pub open spec fn executable_name(exe_file: Seq<u16>) -> Seq<u16> {
    let path = exe_file.take(trimmed_len(exe_file) as int);
    path.skip(file_name_start(path) as int)
}

/// Whether a process reported with the buffer `exe_file` carries the name
/// `wanted`: its file name, decoded, is that text exactly.
pub open spec fn names_process(exe_file: Seq<u16>, wanted: Seq<char>) -> bool {
    utf16_lossy(executable_name(exe_file)) == wanted
}

/// What trimming means: nothing but NULs is cut, and what stays does not end
/// in one.
pub proof fn law_trimming_cuts_only_padding(units: Seq<u16>)
    ensures
        trimmed_len(units) <= units.len(),
        forall|i: int| trimmed_len(units) <= i < units.len() ==> units[i] == 0,
        trimmed_len(units) > 0 ==> units[trimmed_len(units) - 1] != 0,
    decreases units.len(),
{
    if units.len() > 0 && units.last() == 0 {
        let rest = units.drop_last();
        law_trimming_cuts_only_padding(rest);
        assert forall|i: int| trimmed_len(units) <= i < units.len() implies units[i] == 0 by {
            if i < rest.len() {
                assert(rest[i] == units[i]);
            }
        }
        if trimmed_len(units) > 0 {
            assert(rest[trimmed_len(units) - 1] == units[trimmed_len(units) - 1]);
        }
    }
}

/// What the file name's start means: no separator stands at or behind it, and
/// unless it is the start of the path a separator stands just before it.
pub proof fn law_file_name_follows_last_separator(path: Seq<u16>)
    ensures
        file_name_start(path) <= path.len(),
        forall|i: int| file_name_start(path) <= i < path.len() ==> !is_separator(path[i]),
        file_name_start(path) > 0 ==> is_separator(path[file_name_start(path) - 1]),
    decreases path.len(),
{
    if path.len() > 0 && !is_separator(path.last()) {
        let rest = path.drop_last();
        law_file_name_follows_last_separator(rest);
        assert forall|i: int| file_name_start(path) <= i < path.len() implies !is_separator(
            path[i],
        ) by {
            if i < rest.len() {
                assert(rest[i] == path[i]);
            }
        }
        if file_name_start(path) > 0 {
            assert(rest[file_name_start(path) - 1] == path[file_name_start(path) - 1]);
        }
    }
}

/// A buffer that holds no separator names its process by all of its text up
/// to the padding.
pub proof fn law_bare_name_is_kept(exe_file: Seq<u16>)
    requires
        forall|i: int| 0 <= i < exe_file.len() ==> !is_separator(exe_file[i]),
    ensures
        executable_name(exe_file) == exe_file.take(trimmed_len(exe_file) as int),
{
    law_trimming_cuts_only_padding(exe_file);
    let path = exe_file.take(trimmed_len(exe_file) as int);
    law_file_name_follows_last_separator(path);
    assert(path.skip(0) =~= path);
}

/// Decodes UTF-16 with `String::from_utf16_lossy`: the result is the text that
/// the code units stand for, with U+FFFD in place of each unpaired surrogate.
/// Nothing more is claimed of it than that it depends on the units alone.
#[verifier::external_body]
fn decode_utf16(units: &[u16]) -> (text: String)
    ensures
        text@ == utf16_lossy(units@),
{
    String::from_utf16_lossy(units)
}

/// Finds the length of a buffer without its trailing NULs.
pub fn trim_trailing_nuls(units: &[u16]) -> (len: usize)
    ensures
        len == trimmed_len(units@),
        len <= units.len(),
{
    let mut len: usize = units.len();
    proof {
        assert(units@.take(len as int) =~= units@);
    }
    while len > 0 && units[len - 1] == 0
        invariant
            len <= units.len(),
            trimmed_len(units@) == trimmed_len(units@.take(len as int)),
        decreases len,
    {
        proof {
            assert(units@.take(len as int).drop_last() =~= units@.take(len - 1));
        }
        len = len - 1;
    }
    len
}

/// Finds where the file name begins in the first `len` code units of a path.
pub fn find_file_name(path: &[u16], len: usize) -> (start: usize)
    requires
        len <= path.len(),
    ensures
        start == file_name_start(path@.take(len as int)),
        start <= len,
{
    let mut start: usize = len;
    while start > 0 && path[start - 1] != 0x5C && path[start - 1] != 0x2F
        invariant
            start <= len <= path.len(),
            file_name_start(path@.take(len as int)) == file_name_start(path@.take(start as int)),
        decreases start,
    {
        proof {
            assert(path@.take(start as int).drop_last() =~= path@.take(start - 1));
        }
        start = start - 1;
    }
    start
}

/// Where the executable's file name lies in its buffer: the index of its
/// first code unit and the index behind its last.
pub fn executable_name_range(exe_file: &[u16]) -> (range: (usize, usize))
    ensures
        range.0 <= range.1 <= exe_file.len(),
        exe_file@.subrange(range.0 as int, range.1 as int) == executable_name(exe_file@),
        range.1 == trimmed_len(exe_file@),
        range.0 == file_name_start(exe_file@.take(range.1 as int)),
{
    let end = trim_trailing_nuls(exe_file);
    let start = find_file_name(exe_file, end);
    proof {
        assert(exe_file@.subrange(start as int, end as int) =~= exe_file@.take(end as int).skip(
            start as int,
        ));
    }
    (start, end)
}

/// Whether a decoded file name is the name looked for.
pub fn same_name(found: &String, wanted: &String) -> (same: bool)
    ensures
        same == (found@ == wanted@),
{
    *found == *wanted
}

/// Decides whether a process reported with the buffer `exe_file` is the one
/// called `wanted`.
pub fn process_is_named(exe_file: &[u16], wanted: &String) -> (named: bool)
    ensures
        named == names_process(exe_file@, wanted@),
{
    let (start, end) = executable_name_range(exe_file);
    let found = decode_utf16(slice_subrange(exe_file, start, end));
    same_name(&found, wanted)
}

} // verus!
