//! Frames on the wire: big-endian `u64` values, length-prefixed names and
//! bounded content chunks.

use vstd::prelude::*;
use vstd::utf8::*;

verus! {

/// Largest number of content bytes moved by one read or write.
pub const BUFFER_SIZE: usize = 1024;

/// A name frame must declare fewer bytes than this.
pub const MAX_NAME_LEN: u64 = 4096;

/// What can go wrong in framing, independent of the transport.
#[derive(Debug, Clone, Copy, PartialEq, Eq, Structural)]
pub enum ProtocolError {
    /// A name frame was asked for with no bytes: only the end-of-transfer
    /// frame has length zero.
    EmptyString,
    /// A name frame declared this many bytes, at or above the cap.
    StringTooLong(u64),
    /// The bytes of a name frame are not UTF-8.
    InvalidUtf8,
    /// A content read or write of zero bytes was asked for.
    ZeroBuffer,
}

/// The eight big-endian bytes of `v`.
pub open spec fn u64_be(v: u64) -> Seq<u8> {
    seq![
        (v >> 56u64) as u8,
        (v >> 48u64) as u8,
        (v >> 40u64) as u8,
        (v >> 32u64) as u8,
        (v >> 24u64) as u8,
        (v >> 16u64) as u8,
        (v >> 8u64) as u8,
        v as u8,
    ]
}

/// Two values with the same encoding are the same value.
pub proof fn lemma_u64_be_injective(a: u64, b: u64)
    requires
        u64_be(a) == u64_be(b),
    ensures
        a == b,
{
    assert(u64_be(a)[0] == u64_be(b)[0]);
    assert(u64_be(a)[1] == u64_be(b)[1]);
    assert(u64_be(a)[2] == u64_be(b)[2]);
    assert(u64_be(a)[3] == u64_be(b)[3]);
    assert(u64_be(a)[4] == u64_be(b)[4]);
    assert(u64_be(a)[5] == u64_be(b)[5]);
    assert(u64_be(a)[6] == u64_be(b)[6]);
    assert(u64_be(a)[7] == u64_be(b)[7]);
    assert(a == b) by (bit_vector)
        requires
            (a >> 56u64) as u8 == (b >> 56u64) as u8,
            (a >> 48u64) as u8 == (b >> 48u64) as u8,
            (a >> 40u64) as u8 == (b >> 40u64) as u8,
            (a >> 32u64) as u8 == (b >> 32u64) as u8,
            (a >> 24u64) as u8 == (b >> 24u64) as u8,
            (a >> 16u64) as u8 == (b >> 16u64) as u8,
            (a >> 8u64) as u8 == (b >> 8u64) as u8,
            a as u8 == b as u8,
    ;
}

/// The value whose big-endian bytes are `b`.
pub open spec fn u64_from_be(b: Seq<u8>) -> u64 {
    choose|v: u64| u64_be(v) == b
}

/// Decoding the bytes of a value gives the value back.
pub proof fn lemma_u64_from_be(v: u64)
    ensures
        u64_from_be(u64_be(v)) == v,
{
    let w = u64_from_be(u64_be(v));
    assert(u64_be(w) == u64_be(v));
    lemma_u64_be_injective(w, v);
}

/// Appends the eight big-endian bytes of `value`.
pub fn write_u64(out: &mut Vec<u8>, value: u64)
    ensures
        final(out)@ == old(out)@ + u64_be(value),
{
    let ghost start = out@;
    out.push((value >> 56u64) as u8);
    out.push((value >> 48u64) as u8);
    out.push((value >> 40u64) as u8);
    out.push((value >> 32u64) as u8);
    out.push((value >> 24u64) as u8);
    out.push((value >> 16u64) as u8);
    out.push((value >> 8u64) as u8);
    out.push(value as u8);
    assert(out@ =~= start + u64_be(value));
}

/// The value whose big-endian bytes are `bytes`.
pub fn read_u64(bytes: &[u8]) -> (r: u64)
    requires
        bytes@.len() == 8,
    ensures
        u64_be(r) == bytes@,
        r == u64_from_be(bytes@),
{
    let b0 = bytes[0];
    let b1 = bytes[1];
    let b2 = bytes[2];
    let b3 = bytes[3];
    let b4 = bytes[4];
    let b5 = bytes[5];
    let b6 = bytes[6];
    let b7 = bytes[7];
    let r: u64 = (b0 as u64) << 56u64 | (b1 as u64) << 48u64 | (b2 as u64) << 40u64
        | (b3 as u64) << 32u64 | (b4 as u64) << 24u64 | (b5 as u64) << 16u64
        | (b6 as u64) << 8u64 | (b7 as u64);
    assert(
        (r >> 56u64) as u8 == b0 && (r >> 48u64) as u8 == b1 && (r >> 40u64) as u8 == b2
        && (r >> 32u64) as u8 == b3 && (r >> 24u64) as u8 == b4 && (r >> 16u64) as u8 == b5
        && (r >> 8u64) as u8 == b6 && r as u8 == b7
    ) by (bit_vector)
        requires
            r == (b0 as u64) << 56u64 | (b1 as u64) << 48u64 | (b2 as u64) << 40u64
                | (b3 as u64) << 32u64 | (b4 as u64) << 24u64 | (b5 as u64) << 16u64
                | (b6 as u64) << 8u64 | (b7 as u64),
    ;
    assert(u64_be(r) =~= bytes@);
    proof {
        lemma_u64_from_be(r);
    }
    r
}

/// The bytes of a name frame for the string `s`: its UTF-8 length, then its
/// UTF-8 bytes.
pub open spec fn name_frame(s: Seq<char>) -> Seq<u8> {
    u64_be(encode_utf8(s).len() as u64) + encode_utf8(s)
}

/// What a declared name length leads to: the payload length to read next
/// (zero for the end-of-transfer frame), or the error.
pub open spec fn string_len_spec(value: u64) -> Result<nat, ProtocolError> {
    if value >= MAX_NAME_LEN {
        Err(ProtocolError::StringTooLong(value))
    } else {
        Ok(value as nat)
    }
}

/// Appends a name frame for `message`; an empty message is refused and
/// nothing is written.
pub fn write_string(out: &mut Vec<u8>, message: &str) -> (r: Result<(), ProtocolError>)
    ensures
        message@.len() == 0 <==> r is Err,
        r is Err ==> r == Err::<(), ProtocolError>(ProtocolError::EmptyString) && final(out)@ == old(out)@,
        r is Ok ==> final(out)@ == old(out)@ + name_frame(message@),
{
    if message.is_empty() {
        return Err(ProtocolError::EmptyString);
    }
    let data = message.as_bytes();
    let len = data.len();
    write_u64(out, len as u64);
    append_bytes(out, data);
    Ok(())
}

/// Appends every byte of `data`.
fn append_bytes(out: &mut Vec<u8>, data: &[u8])
    ensures
        final(out)@ == old(out)@ + data@,
{
    let ghost start = out@;
    let mut i: usize = 0;
    while i < data.len()
        invariant
            i <= data@.len(),
            out@ == start + data@.subrange(0, i as int),
        decreases data@.len() - i,
    {
        out.push(data[i]);
        i = i + 1;
        assert(out@ =~= start + data@.subrange(0, i as int));
    }
    assert(data@.subrange(0, i as int) =~= data@);
}

/// Appends the first `data_len` bytes of `data`; zero bytes are refused and
/// nothing is written.
pub fn write_buffer(out: &mut Vec<u8>, data: &[u8; 1024], data_len: u64) -> (r: Result<(), ProtocolError>)
    requires
        data_len <= BUFFER_SIZE,
    ensures
        data_len == 0 <==> r is Err,
        r is Err ==> r == Err::<(), ProtocolError>(ProtocolError::ZeroBuffer) && final(out)@ == old(out)@,
        r is Ok ==> final(out)@ == old(out)@ + data@.subrange(0, data_len as int),
{
    if data_len == 0 {
        return Err(ProtocolError::ZeroBuffer);
    }
    let len = data_len as usize;
    let ghost start = out@;
    let mut i: usize = 0;
    while i < len
        invariant
            i <= len,
            len == data_len,
            len <= data@.len(),
            out@ == start + data@.subrange(0, i as int),
        decreases len - i,
    {
        out.push(data[i]);
        i = i + 1;
        assert(out@ =~= start + data@.subrange(0, i as int));
    }
    Ok(())
}

/// Checks a declared name length: below the cap it is the number of payload
/// bytes to read (zero marks the end of the transfer); at or above it the
/// frame is refused before any payload is read.
pub fn string_len(value: u64) -> (r: Result<usize, ProtocolError>)
    ensures
        r is Ok <==> string_len_spec(value) is Ok,
        r matches Ok(n) ==> string_len_spec(value) == Ok::<nat, ProtocolError>(n as nat),
        r is Err ==> r == Err::<usize, ProtocolError>(ProtocolError::StringTooLong(value)),
{
    if value >= MAX_NAME_LEN {
        Err(ProtocolError::StringTooLong(value))
    } else {
        Ok(value as usize)
    }
}

/// Relies on String::from_utf8: it succeeds exactly on UTF-8 input, and the
/// string then holds the characters those bytes encode.
#[verifier::external_body]
fn string_from_utf8(bytes: Vec<u8>) -> (r: Option<String>)
    ensures
        r is Some <==> valid_utf8(bytes@),
        r matches Some(s) ==> s@ == decode_utf8(bytes@),
{
    String::from_utf8(bytes).ok()
}

/// The name that a name frame's payload holds, or `InvalidUtf8`.
pub fn decode_string(payload: Vec<u8>) -> (r: Result<String, ProtocolError>)
    ensures
        r is Ok <==> valid_utf8(payload@),
        r matches Ok(s) ==> s@ == decode_utf8(payload@),
        r is Err ==> r matches Err(ProtocolError::InvalidUtf8),
{
    match string_from_utf8(payload) {
        Some(s) => Ok(s),
        None => Err(ProtocolError::InvalidUtf8),
    }
}

/// A copy of a content chunk; an empty chunk is refused.
pub fn read_chunk(bytes: &[u8]) -> (r: Result<Vec<u8>, ProtocolError>)
    ensures
        bytes@.len() == 0 <==> r is Err,
        r matches Ok(v) ==> v@ == bytes@,
        r is Err ==> r matches Err(ProtocolError::ZeroBuffer),
{
    if bytes.len() == 0 {
        return Err(ProtocolError::ZeroBuffer);
    }
    let mut v: Vec<u8> = Vec::new();
    append_bytes(&mut v, bytes);
    assert(v@ =~= bytes@);
    Ok(v)
}

} // verus!
