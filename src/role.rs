//! The four roles of an endpoint: listener or connector, sender or receiver.

use vstd::prelude::*;

verus! {

/// Who opens the connection and which way the files go.
#[derive(Debug, Clone, Copy, PartialEq, Eq, Structural)]
pub enum Role {
    ListenSend,
    ListenReceive,
    ConnectSend,
    ConnectReceive,
}

/// The role of an endpoint: it listens when it was given no remote host,
/// and it sends exactly when listening and reversing are both set or both
/// unset.
pub open spec fn role_spec(listener: bool, reverse: bool) -> Role {
    let sending = !(listener ^ reverse);
    if listener {
        if sending { Role::ListenSend } else { Role::ListenReceive }
    } else {
        if sending { Role::ConnectSend } else { Role::ConnectReceive }
    }
}

/// The role for a remote host (empty when none was given) and the reverse
/// flag.
pub fn resolve_role(remote_host: &str, reverse: bool) -> (r: Role)
    ensures
        r == role_spec(remote_host@.len() == 0, reverse),
{
    let listener = remote_host.is_empty();
    let sending = !(listener ^ reverse);
    if listener {
        if sending { Role::ListenSend } else { Role::ListenReceive }
    } else {
        if sending { Role::ConnectSend } else { Role::ConnectReceive }
    }
}

impl Role {
    /// Whether this endpoint accepts connections.
    pub fn is_listener(&self) -> (r: bool)
        ensures
            r == (*self is ListenSend || *self is ListenReceive),
    {
        match self {
            Role::ListenSend | Role::ListenReceive => true,
            _ => false,
        }
    }

    /// Whether this endpoint sends the directory.
    pub fn is_sending(&self) -> (r: bool)
        ensures
            r == (*self is ListenSend || *self is ConnectSend),
    {
        match self {
            Role::ListenSend | Role::ConnectSend => true,
            _ => false,
        }
    }
}

} // verus!
