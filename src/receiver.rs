//! The receiving side of a transfer as a state machine: it says how many
//! bytes it needs next, and turns each such run of bytes into what the
//! caller must do on disk.

use vstd::prelude::*;
use vstd::string::*;
use vstd::utf8::*;
use crate::codec::{BUFFER_SIZE, MAX_NAME_LEN, ProtocolError, decode_string, read_chunk, read_u64, string_len, u64_from_be};
use crate::path::{WIRE_SEPARATOR, denormalize_with, replace_char};

verus! {

/// Where the receiver stands between two reads.
pub enum PhaseModel {
    /// Waits for the length of the next name frame.
    NameLen,
    /// Waits for a name payload of this many bytes.
    Name(nat),
    /// Has the wire name; waits for the file size.
    Size(Seq<char>),
    /// Waits for this many more content bytes.
    Content(nat),
    /// The end-of-transfer frame was read.
    Done,
}

/// What one step asks of the caller, in terms of values.
pub enum EventModel {
    Nothing,
    CreateFile(Seq<char>),
    Data(Seq<u8>),
    Finished,
}

/// Number of bytes the receiver needs before its next step.
pub open spec fn wanted_spec(p: PhaseModel) -> nat {
    match p {
        PhaseModel::NameLen => 8,
        PhaseModel::Name(n) => n,
        PhaseModel::Size(_) => 8,
        PhaseModel::Content(rem) => if rem > BUFFER_SIZE { BUFFER_SIZE as nat } else { rem },
        PhaseModel::Done => 0,
    }
}

/// The phases the receiver can be in.
pub open spec fn phase_ok(p: PhaseModel) -> bool {
    match p {
        PhaseModel::Name(n) => 0 < n < MAX_NAME_LEN,
        PhaseModel::Content(rem) => 0 < rem <= u64::MAX,
        _ => true,
    }
}

/// The destination of a wire name under `root`, with separator `sep`.
pub open spec fn destination(root: Seq<char>, sep: char, wire_name: Seq<char>) -> Seq<char> {
    root + replace_char(wire_name, WIRE_SEPARATOR, sep)
}

/// One step: the phase and the bytes it wanted give the next phase and the
/// event, or the protocol error that ends the session.
pub open spec fn step(root: Seq<char>, sep: char, p: PhaseModel, b: Seq<u8>) -> Result<
    (PhaseModel, EventModel),
    ProtocolError,
> {
    match p {
        PhaseModel::NameLen => {
            let v = u64_from_be(b);
            if v == 0 {
                Ok((PhaseModel::Done, EventModel::Finished))
            } else if v >= MAX_NAME_LEN {
                Err(ProtocolError::StringTooLong(v))
            } else {
                Ok((PhaseModel::Name(v as nat), EventModel::Nothing))
            }
        },
        PhaseModel::Name(_) => {
            if valid_utf8(b) {
                Ok((PhaseModel::Size(decode_utf8(b)), EventModel::Nothing))
            } else {
                Err(ProtocolError::InvalidUtf8)
            }
        },
        PhaseModel::Size(name) => {
            let v = u64_from_be(b);
            let next = if v == 0 { PhaseModel::NameLen } else { PhaseModel::Content(v as nat) };
            Ok((next, EventModel::CreateFile(destination(root, sep, name))))
        },
        PhaseModel::Content(rem) => {
            let left = rem - b.len();
            let next = if left <= 0 { PhaseModel::NameLen } else { PhaseModel::Content(left as nat) };
            Ok((next, EventModel::Data(b)))
        },
        PhaseModel::Done => Ok((PhaseModel::Done, EventModel::Nothing)),
    }
}

enum Phase {
    NameLen,
    Name(usize),
    Size(String),
    Content(u64),
    Done,
}

impl Phase {
    spec fn model(&self) -> PhaseModel {
        match self {
            Phase::NameLen => PhaseModel::NameLen,
            Phase::Name(n) => PhaseModel::Name(*n as nat),
            Phase::Size(s) => PhaseModel::Size(s@),
            Phase::Content(rem) => PhaseModel::Content(*rem as nat),
            Phase::Done => PhaseModel::Done,
        }
    }
}

/// What the caller does after a step.
pub enum Event {
    /// Read the next run of bytes.
    Nothing,
    /// Create this file, and any missing parent directories, empty.
    CreateFile(String),
    /// Append these bytes to the file created last.
    Data(Vec<u8>),
    /// The transfer is complete.
    Finished,
}

impl View for Event {
    type V = EventModel;

    open spec fn view(&self) -> EventModel {
        match self {
            Event::Nothing => EventModel::Nothing,
            Event::CreateFile(s) => EventModel::CreateFile(s@),
            Event::Data(v) => EventModel::Data(v@),
            Event::Finished => EventModel::Finished,
        }
    }
}

/// One receiving session under a directory root.
pub struct Receiver {
    root: String,
    sep: char,
    phase: Phase,
}

impl Receiver {
    /// The directory that files are written under.
    pub closed spec fn root(&self) -> Seq<char> {
        self.root@
    }

    /// The separator that received names are written with.
    pub closed spec fn separator(&self) -> char {
        self.sep
    }

    /// Where the session stands.
    pub closed spec fn phase(&self) -> PhaseModel {
        self.phase.model()
    }

    /// A new session that waits for the first name frame.
    pub fn new(root: String, sep: char) -> (r: Receiver)
        ensures
            r.root() == root@,
            r.separator() == sep,
            r.phase() == PhaseModel::NameLen,
            phase_ok(r.phase()),
    {
        Receiver { root, sep, phase: Phase::NameLen }
    }

    /// Number of bytes to read before the next step; zero once done.
    pub fn wanted(&self) -> (n: usize)
        requires
            phase_ok(self.phase()),
        ensures
            n == wanted_spec(self.phase()),
    {
        match &self.phase {
            Phase::NameLen => 8,
            Phase::Name(n) => *n,
            Phase::Size(_) => 8,
            Phase::Content(rem) => if *rem > BUFFER_SIZE as u64 { BUFFER_SIZE } else { *rem as usize },
            Phase::Done => 0,
        }
    }

    /// Whether the end-of-transfer frame has been read.
    pub fn is_done(&self) -> (r: bool)
        ensures
            r == (self.phase() is Done),
    {
        match &self.phase {
            Phase::Done => true,
            _ => false,
        }
    }

    /// Takes the bytes that `wanted` asked for and makes one step. On an
    /// error the session is left as it was and must end.
    pub fn feed(&mut self, bytes: &[u8]) -> (r: Result<Event, ProtocolError>)
        requires
            phase_ok(old(self).phase()),
            !(old(self).phase() is Done),
            bytes@.len() == wanted_spec(old(self).phase()),
        ensures
            final(self).root() == old(self).root(),
            final(self).separator() == old(self).separator(),
            phase_ok(final(self).phase()),
            match step(old(self).root(), old(self).separator(), old(self).phase(), bytes@) {
                Ok((p, e)) => r matches Ok(ev) && ev@ == e && final(self).phase() == p,
                Err(err) => r == Err::<Event, ProtocolError>(err) && final(self).phase() == old(self).phase(),
            },
    {
        match &self.phase {
            Phase::NameLen => {
                let v = read_u64(bytes);
                if v == 0 {
                    self.phase = Phase::Done;
                    Ok(Event::Finished)
                } else {
                    match string_len(v) {
                        Ok(n) => {
                            self.phase = Phase::Name(n);
                            Ok(Event::Nothing)
                        },
                        Err(e) => Err(e),
                    }
                }
            },
            Phase::Name(_) => {
                let mut payload: Vec<u8> = Vec::new();
                let mut i: usize = 0;
                while i < bytes.len()
                    invariant
                        i <= bytes@.len(),
                        payload@ == bytes@.subrange(0, i as int),
                    decreases bytes@.len() - i,
                {
                    payload.push(bytes[i]);
                    i = i + 1;
                    assert(payload@ =~= bytes@.subrange(0, i as int));
                }
                assert(payload@ =~= bytes@);
                match decode_string(payload) {
                    Ok(name) => {
                        self.phase = Phase::Size(name);
                        Ok(Event::Nothing)
                    },
                    Err(e) => Err(e),
                }
            },
            Phase::Size(name) => {
                let v = read_u64(bytes);
                let relative = denormalize_with(name.as_str(), self.sep);
                let mut path = self.root.clone();
                path.append(relative.as_str());
                if v == 0 {
                    self.phase = Phase::NameLen;
                } else {
                    self.phase = Phase::Content(v);
                }
                Ok(Event::CreateFile(path))
            },
            Phase::Content(rem) => {
                let rem = *rem;
                let chunk = match read_chunk(bytes) {
                    Ok(c) => c,
                    Err(e) => return Err(e),
                };
                let left = rem - bytes.len() as u64;
                if left == 0 {
                    self.phase = Phase::NameLen;
                } else {
                    self.phase = Phase::Content(left);
                }
                Ok(Event::Data(chunk))
            },
            Phase::Done => Ok(Event::Nothing),
        }
    }
}

} // verus!
