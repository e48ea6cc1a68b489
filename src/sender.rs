//! The sending side's framing: which walked paths are sent, under what
//! name, and the bytes that announce each file and end the transfer.

use vstd::prelude::*;
use crate::codec::{ProtocolError, name_frame, u64_be, write_string, write_u64};
use crate::path::{WIRE_SEPARATOR, normalize_with, replace_char};

verus! {

/// The path of `full` relative to `root`: what follows the root when the
/// root is a proper prefix of it.
pub open spec fn relative_spec(full: Seq<char>, root: Seq<char>) -> Option<Seq<char>> {
    if root.len() < full.len() && full.subrange(0, root.len() as int) == root {
        Some(full.subrange(root.len() as int, full.len() as int))
    } else {
        None
    }
}

/// The part of a walked path below the directory root; `None` for the root
/// itself and for a path outside it, which are not sent.
pub fn relative_name(full: &str, root: &str) -> (r: Option<String>)
    ensures
        r is Some <==> relative_spec(full@, root@) is Some,
        r matches Some(s) ==> relative_spec(full@, root@) == Some(s@),
{
    let n = full.unicode_len();
    let m = root.unicode_len();
    if m >= n {
        return None;
    }
    let mut i: usize = 0;
    while i < m
        invariant
            m < n,
            n == full@.len(),
            m == root@.len(),
            i <= m,
            full@.subrange(0, i as int) == root@.subrange(0, i as int),
        decreases m - i,
    {
        if full.get_char(i) != root.get_char(i) {
            assert(full@.subrange(0, m as int)[i as int] != root@[i as int]);
            return None;
        }
        i = i + 1;
        assert(full@.subrange(0, i as int) =~= root@.subrange(0, i as int));
    }
    assert(root@.subrange(0, m as int) =~= root@);
    let rest = full.substring_char(m, n);
    Some(rest.to_owned())
}

/// Appends the header of one file: the name frame of the wire form of
/// `relative` (written with separator `sep`), then the file size. An empty
/// name is refused and nothing is written.
pub fn write_file_header(out: &mut Vec<u8>, relative: &str, sep: char, size: u64) -> (r: Result<(), ProtocolError>)
    ensures
        relative@.len() == 0 <==> r is Err,
        r is Err ==> r == Err::<(), ProtocolError>(ProtocolError::EmptyString) && final(out)@ == old(out)@,
        r is Ok ==> final(out)@ == old(out)@ + name_frame(replace_char(relative@, sep, WIRE_SEPARATOR))
            + u64_be(size),
{
    let wire = normalize_with(relative, sep);
    match write_string(out, wire.as_str()) {
        Ok(()) => {
            write_u64(out, size);
            Ok(())
        },
        Err(e) => Err(e),
    }
}

/// Appends the end-of-transfer frame: a bare zero where the next name frame
/// would begin.
pub fn write_end_of_transfer(out: &mut Vec<u8>)
    ensures
        final(out)@ == old(out)@ + u64_be(0),
{
    write_u64(out, 0);
}

} // verus!
