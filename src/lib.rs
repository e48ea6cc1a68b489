//! Copying a directory tree over one byte stream: the frame codec, the
//! separator-neutral wire names, the sender's framing, the receiver's state
//! machine and the choice of role.

pub mod codec;
pub mod path;
pub mod receiver;
pub mod sender;
pub mod role;
pub mod transfer;
