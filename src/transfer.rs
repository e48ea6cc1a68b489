//! A whole transfer at the level of values: the bytes a sender puts on the
//! wire for a list of files, what the receiver's steps make of a byte
//! stream, and the laws that tie the two together.

use vstd::prelude::*;
use vstd::utf8::*;
use crate::codec::{BUFFER_SIZE, MAX_NAME_LEN, ProtocolError, lemma_u64_from_be, name_frame, u64_be};
use crate::path::{WIRE_SEPARATOR, is_path_separator, lemma_separator_portability, replace_char};
use crate::receiver::{EventModel, PhaseModel, step, wanted_spec};

verus! {

/// The bytes of one file: its header, then its content with no inner
/// framing.
pub open spec fn record_wire(sep: char, name: Seq<char>, content: Seq<u8>) -> Seq<u8> {
    name_frame(replace_char(name, sep, WIRE_SEPARATOR)) + u64_be(content.len() as u64) + content
}

/// The bytes of a whole transfer of `files` (relative name written with
/// `sep`, content): every file in turn, then the end-of-transfer frame.
pub open spec fn transfer_wire(sep: char, files: Seq<(Seq<char>, Seq<u8>)>) -> Seq<u8>
    decreases files.len(),
{
    if files.len() == 0 {
        u64_be(0)
    } else {
        record_wire(sep, files[0].0, files[0].1) + transfer_wire(sep, files.drop_first())
    }
}

/// The content of a file as the receiver takes it: full chunks of the
/// buffer size, then one shorter chunk for what is left, if anything.
pub open spec fn chunk_events(content: Seq<u8>) -> Seq<EventModel>
    decreases content.len(),
{
    if content.len() == 0 {
        seq![]
    } else if content.len() <= BUFFER_SIZE {
        seq![EventModel::Data(content)]
    } else {
        seq![EventModel::Data(content.subrange(0, BUFFER_SIZE as int))] + chunk_events(
            content.subrange(BUFFER_SIZE as int, content.len() as int),
        )
    }
}

/// The bytes that the data events of `es` carry, in order.
pub open spec fn events_data(es: Seq<EventModel>) -> Seq<u8>
    decreases es.len(),
{
    if es.len() == 0 {
        seq![]
    } else {
        let first = match es[0] {
            EventModel::Data(b) => b,
            _ => Seq::<u8>::empty(),
        };
        first + events_data(es.drop_first())
    }
}

/// A file's content is taken in exactly as many chunks as it has started
/// blocks of the buffer size: every chunk but the last is a full buffer,
/// none is empty or larger than a buffer, and together they are the content,
/// with nothing missing and nothing extra.
pub proof fn lemma_chunks_exact(content: Seq<u8>)
    ensures
        events_data(chunk_events(content)) == content,
        chunk_events(content).len() == (content.len() + BUFFER_SIZE - 1) / BUFFER_SIZE as int,
        forall|i: int|
            0 <= i < chunk_events(content).len() ==> (#[trigger] chunk_events(content)[i] matches EventModel::Data(b) && 0 < b.len() <= BUFFER_SIZE && (i + 1 < chunk_events(content).len() ==> b.len() == BUFFER_SIZE)),
    decreases content.len(),
{
    let es = chunk_events(content);
    if content.len() == 0 {
    } else if content.len() <= BUFFER_SIZE {
        assert(es.drop_first() =~= Seq::<EventModel>::empty());
        assert(events_data(es.drop_first()) == Seq::<u8>::empty());
        assert(events_data(es) == content + Seq::<u8>::empty());
        assert(content + Seq::<u8>::empty() =~= content);
    } else {
        let head = content.subrange(0, BUFFER_SIZE as int);
        let tail = content.subrange(BUFFER_SIZE as int, content.len() as int);
        lemma_chunks_exact(tail);
        assert(es.drop_first() =~= chunk_events(tail));
        assert(events_data(es) =~= head + tail);
        assert(head + tail =~= content);
        let ts = chunk_events(tail);
        assert forall|i: int|
            0 <= i < es.len() implies (#[trigger] es[i] matches EventModel::Data(b) && 0 < b.len() <= BUFFER_SIZE && (i + 1 < es.len() ==> b.len() == BUFFER_SIZE)) by {
            if i > 0 {
                assert(es[i] == ts[i - 1]);
            }
        }
    }
}

/// The events of one file: two reads of its name frame, the creation of
/// its destination, its content.
pub open spec fn file_events(
    root: Seq<char>,
    receiver_sep: char,
    sender_sep: char,
    name: Seq<char>,
    content: Seq<u8>,
) -> Seq<EventModel> {
    seq![
        EventModel::Nothing,
        EventModel::Nothing,
        EventModel::CreateFile(root + replace_char(name, sender_sep, receiver_sep)),
    ] + chunk_events(content)
}

/// The events of a whole transfer of `files`.
pub open spec fn transfer_events(
    root: Seq<char>,
    receiver_sep: char,
    sender_sep: char,
    files: Seq<(Seq<char>, Seq<u8>)>,
) -> Seq<EventModel>
    decreases files.len(),
{
    if files.len() == 0 {
        seq![EventModel::Finished]
    } else {
        file_events(root, receiver_sep, sender_sep, files[0].0, files[0].1) + transfer_events(
            root,
            receiver_sep,
            sender_sep,
            files.drop_first(),
        )
    }
}

/// The events of a receiver that starts in phase `p` and is handed
/// `stream` run by run as it asks; `None` when a step fails, the stream
/// ends early, or bytes are left after the end of the transfer.
pub open spec fn run(root: Seq<char>, sep: char, p: PhaseModel, stream: Seq<u8>) -> Option<
    Seq<EventModel>,
>
    decreases stream.len(),
{
    if p is Done {
        if stream.len() == 0 {
            Some(seq![])
        } else {
            None
        }
    } else {
        let n = wanted_spec(p);
        if n == 0 || stream.len() < n {
            None
        } else {
            match step(root, sep, p, stream.subrange(0, n as int)) {
                Ok((q, e)) => match run(root, sep, q, stream.subrange(n as int, stream.len() as int)) {
                    Some(es) => Some(seq![e] + es),
                    None => None,
                },
                Err(_) => None,
            }
        }
    }
}

/// A file that the protocol can carry: a non-empty name without the
/// reserved character, whose wire form fits a name frame, and a content
/// whose length fits the size frame.
pub open spec fn sendable(sep: char, name: Seq<char>, content: Seq<u8>) -> bool {
    &&& name.len() > 0
    &&& !name.contains(WIRE_SEPARATOR)
    &&& encode_utf8(replace_char(name, sep, WIRE_SEPARATOR)).len() < MAX_NAME_LEN
    &&& content.len() <= u64::MAX
}

proof fn lemma_run_content(root: Seq<char>, sep: char, c: Seq<u8>, rest: Seq<u8>, es: Seq<EventModel>)
    requires
        0 < c.len() <= u64::MAX,
        run(root, sep, PhaseModel::NameLen, rest) == Some(es),
    ensures
        run(root, sep, PhaseModel::Content(c.len()), c + rest) == Some(chunk_events(c) + es),
    decreases c.len(),
{
    let s = c + rest;
    if c.len() <= BUFFER_SIZE {
        assert(s.subrange(0, c.len() as int) =~= c);
        assert(s.subrange(c.len() as int, s.len() as int) =~= rest);
        assert(seq![EventModel::Data(c)] + es =~= chunk_events(c) + es);
    } else {
        let head = c.subrange(0, BUFFER_SIZE as int);
        let tail = c.subrange(BUFFER_SIZE as int, c.len() as int);
        lemma_run_content(root, sep, tail, rest, es);
        assert(s.subrange(0, BUFFER_SIZE as int) =~= head);
        assert(s.subrange(BUFFER_SIZE as int, s.len() as int) =~= tail + rest);
        assert(seq![EventModel::Data(head)] + (chunk_events(tail) + es) =~= chunk_events(c) + es);
    }
}

proof fn lemma_encode_nonempty(s: Seq<char>)
    requires
        s.len() > 0,
    ensures
        encode_utf8(s).len() > 0,
{
    assert(encode_scalar(s[0] as u32).len() > 0);
}

proof fn lemma_run_record(
    root: Seq<char>,
    receiver_sep: char,
    sender_sep: char,
    name: Seq<char>,
    content: Seq<u8>,
    rest: Seq<u8>,
    es: Seq<EventModel>,
)
    requires
        is_path_separator(receiver_sep),
        is_path_separator(sender_sep),
        sendable(sender_sep, name, content),
        run(root, receiver_sep, PhaseModel::NameLen, rest) == Some(es),
    ensures
        run(root, receiver_sep, PhaseModel::NameLen, record_wire(sender_sep, name, content) + rest)
            == Some(file_events(root, receiver_sep, sender_sep, name, content) + es),
{
    let wire = replace_char(name, sender_sep, WIRE_SEPARATOR);
    let bytes = encode_utf8(wire);
    let len = bytes.len() as u64;
    let size = content.len() as u64;
    lemma_encode_nonempty(wire);
    lemma_u64_from_be(len);
    lemma_u64_from_be(size);
    encode_utf8_valid_utf8(wire);
    encode_utf8_decode_utf8(wire);
    lemma_separator_portability(name, sender_sep, receiver_sep);
    let create = EventModel::CreateFile(root + replace_char(name, sender_sep, receiver_sep));

    let s0 = record_wire(sender_sep, name, content) + rest;
    let s1 = bytes + u64_be(size) + content + rest;
    let s2 = u64_be(size) + content + rest;
    let s3 = content + rest;
    assert(s0.subrange(0, 8) =~= u64_be(len));
    assert(s0.subrange(8, s0.len() as int) =~= s1);
    assert(s1.subrange(0, len as int) =~= bytes);
    assert(s1.subrange(len as int, s1.len() as int) =~= s2);
    assert(s2.subrange(0, 8) =~= u64_be(size));
    assert(s2.subrange(8, s2.len() as int) =~= s3);

    let tail = chunk_events(content) + es;
    if size == 0 {
        assert(content =~= Seq::<u8>::empty());
        assert(s3 =~= rest);
        assert(run(root, receiver_sep, PhaseModel::NameLen, s3) == Some(tail));
    } else {
        lemma_run_content(root, receiver_sep, content, rest, es);
        assert(run(root, receiver_sep, PhaseModel::Content(content.len()), s3) == Some(tail));
    }
    assert(run(root, receiver_sep, PhaseModel::Size(wire), s2) == Some(seq![create] + tail));
    assert(run(root, receiver_sep, PhaseModel::Name(len as nat), s1) == Some(
        seq![EventModel::Nothing] + (seq![create] + tail),
    ));
    assert(run(root, receiver_sep, PhaseModel::NameLen, s0) == Some(
        seq![EventModel::Nothing] + (seq![EventModel::Nothing] + (seq![create] + tail)),
    ));
    assert(seq![EventModel::Nothing] + (seq![EventModel::Nothing] + (seq![create] + tail))
        =~= file_events(root, receiver_sep, sender_sep, name, content) + es);
}

/// Round trip: a receiver handed the bytes that a sender writes for a list
/// of files creates each file, in order, at the root joined with the file's
/// relative name (written with the receiver's separator), hands on its
/// content in chunks, and finishes exactly at the end of the stream.
pub proof fn lemma_round_trip(
    root: Seq<char>,
    receiver_sep: char,
    sender_sep: char,
    files: Seq<(Seq<char>, Seq<u8>)>,
)
    requires
        is_path_separator(receiver_sep),
        is_path_separator(sender_sep),
        forall|i: int| 0 <= i < files.len() ==> sendable(sender_sep, #[trigger] files[i].0, files[i].1),
    ensures
        run(root, receiver_sep, PhaseModel::NameLen, transfer_wire(sender_sep, files))
            == Some(transfer_events(root, receiver_sep, sender_sep, files)),
    decreases files.len(),
{
    if files.len() == 0 {
        lemma_empty_transfer(root, receiver_sep, sender_sep);
    } else {
        let rest = files.drop_first();
        assert forall|i: int| 0 <= i < rest.len() implies sendable(sender_sep, #[trigger] rest[i].0, rest[i].1) by {
            assert(rest[i] == files[i + 1]);
        }
        lemma_round_trip(root, receiver_sep, sender_sep, rest);
        assert(sendable(sender_sep, files[0].0, files[0].1));
        lemma_run_record(
            root,
            receiver_sep,
            sender_sep,
            files[0].0,
            files[0].1,
            transfer_wire(sender_sep, rest),
            transfer_events(root, receiver_sep, sender_sep, rest),
        );
    }
}

/// An empty directory is sent as the end-of-transfer frame alone, and a
/// receiver handed it creates nothing and finishes.
pub proof fn lemma_empty_transfer(root: Seq<char>, receiver_sep: char, sender_sep: char)
    ensures
        transfer_wire(sender_sep, seq![]) == u64_be(0),
        run(root, receiver_sep, PhaseModel::NameLen, transfer_wire(sender_sep, seq![]))
            == Some(seq![EventModel::Finished]),
{
    let s = u64_be(0);
    lemma_u64_from_be(0);
    assert(s.subrange(0, 8) =~= s);
    assert(s.subrange(8, 8) =~= Seq::<u8>::empty());
    assert(run(root, receiver_sep, PhaseModel::Done, s.subrange(8, 8)) == Some(Seq::<EventModel>::empty()));
    assert(seq![EventModel::Finished] + Seq::<EventModel>::empty() =~= seq![EventModel::Finished]);
}

/// A name frame that declares the cap or more is refused on its eight
/// length bytes alone: the step fails with the declared length, and no
/// stream that begins with that length is received, whatever follows.
pub proof fn lemma_name_length_guard(root: Seq<char>, sep: char, declared: u64, following: Seq<u8>)
    requires
        declared >= MAX_NAME_LEN,
    ensures
        step(root, sep, PhaseModel::NameLen, u64_be(declared)) == Err::<(PhaseModel, EventModel), ProtocolError>(
            ProtocolError::StringTooLong(declared),
        ),
        run(root, sep, PhaseModel::NameLen, u64_be(declared) + following) is None,
{
    lemma_u64_from_be(declared);
    let s = u64_be(declared) + following;
    assert(s.subrange(0, 8) =~= u64_be(declared));
}

} // verus!
