//! Separator-neutral wire names: the local path separator travels as NUL and
//! is put back with the receiving host's own separator.

use vstd::prelude::*;

verus! {

/// The reserved character that stands for a separator on the wire.
pub const WIRE_SEPARATOR: char = '\0';

/// `s` with every `from` replaced by `to`.
pub open spec fn replace_char(s: Seq<char>, from: char, to: char) -> Seq<char> {
    Seq::new(s.len(), |i: int| if s[i] == from { to } else { s[i] })
}

/// A separator that some host uses between path components.
pub open spec fn is_path_separator(c: char) -> bool {
    c == '/' || c == '\\'
}

/// Relies on std::path::MAIN_SEPARATOR: `/` on Unix-like hosts, `\` on
/// Windows.
#[verifier::external_body]
fn main_separator() -> (r: char)
    ensures
        is_path_separator(r),
{
    std::path::MAIN_SEPARATOR
}

/// Relies on String::push: appends one character.
#[verifier::external_body]
fn push_char(s: &mut String, c: char)
    ensures
        final(s)@ == old(s)@.push(c),
{
    s.push(c)
}

/// `name` with every `from` replaced by `to`.
pub fn replace_all(name: &str, from: char, to: char) -> (r: String)
    ensures
        r@ == replace_char(name@, from, to),
{
    let n = name.unicode_len();
    let mut r = String::new();
    let mut i: usize = 0;
    while i < n
        invariant
            n == name@.len(),
            i <= n,
            r@ == replace_char(name@.subrange(0, i as int), from, to),
        decreases n - i,
    {
        let c = name.get_char(i);
        if c == from {
            push_char(&mut r, to);
        } else {
            push_char(&mut r, c);
        }
        i = i + 1;
        assert(r@ =~= replace_char(name@.subrange(0, i as int), from, to));
    }
    assert(name@.subrange(0, n as int) =~= name@);
    r
}

/// The wire form of a relative path written with separator `sep`.
pub fn normalize_with(name: &str, sep: char) -> (r: String)
    ensures
        r@ == replace_char(name@, sep, WIRE_SEPARATOR),
{
    replace_all(name, sep, WIRE_SEPARATOR)
}

/// The relative path, written with separator `sep`, that a wire name stands
/// for.
pub fn denormalize_with(name: &str, sep: char) -> (r: String)
    ensures
        r@ == replace_char(name@, WIRE_SEPARATOR, sep),
{
    replace_all(name, WIRE_SEPARATOR, sep)
}

/// The wire form of a relative path written with this host's separator.
pub fn normalize_name(name: String) -> (r: String)
    ensures
        exists|sep: char|
            is_path_separator(sep) && r@ == #[trigger] replace_char(name@, sep, WIRE_SEPARATOR),
{
    let sep = main_separator();
    normalize_with(name.as_str(), sep)
}

/// The relative path, written with this host's separator, that a wire name
/// stands for.
pub fn denormalize_name(name: String) -> (r: String)
    ensures
        exists|sep: char|
            is_path_separator(sep) && r@ == #[trigger] replace_char(name@, WIRE_SEPARATOR, sep),
{
    let sep = main_separator();
    denormalize_with(name.as_str(), sep)
}

/// A path written with separator `sender` leaves no separator in its wire
/// form, and the receiver reads it back with its own separator `receiver`
/// wherever the sender had one; on one host this is the identity.
pub proof fn lemma_separator_portability(name: Seq<char>, sender: char, receiver: char)
    requires
        !name.contains(WIRE_SEPARATOR),
        is_path_separator(sender),
        is_path_separator(receiver),
    ensures
        !replace_char(name, sender, WIRE_SEPARATOR).contains(sender),
        replace_char(replace_char(name, sender, WIRE_SEPARATOR), WIRE_SEPARATOR, receiver)
            == replace_char(name, sender, receiver),
        replace_char(replace_char(name, sender, WIRE_SEPARATOR), WIRE_SEPARATOR, sender) == name,
{
    let wire = replace_char(name, sender, WIRE_SEPARATOR);
    assert forall|i: int| 0 <= i < name.len() implies name[i] != WIRE_SEPARATOR by {
        if name[i] == WIRE_SEPARATOR {
            assert(name.contains(WIRE_SEPARATOR));
        }
    }
    assert(!wire.contains(sender)) by {
        if wire.contains(sender) {
            let j = choose|j: int| 0 <= j < wire.len() && wire[j] == sender;
            assert(wire[j] == sender);
        }
    }
    assert(replace_char(wire, WIRE_SEPARATOR, receiver) =~= replace_char(name, sender, receiver));
    assert(replace_char(wire, WIRE_SEPARATOR, sender) =~= name);
}

} // verus!
