//! The path of the daemon socket, and its lock file.

use crate::error::{ExitAs, ExitErrorType};
use crate::path::{AbsPathBuf, file_name_of, parent_of, path_join};
use vstd::prelude::*;

verus! {

/// Small wrapper that makes sure lorri sockets are handled correctly.
#[derive(Debug)]
pub struct SocketPath(AbsPathBuf);

/// Binding to the socket failed.
#[derive(Debug)]
pub enum BindError {
    /// Another process is listening on the socket (at the given lock file)
    OtherProcessListening(String),
    /// I/O error, with its message
    Io(String),
    /// Unix error, with its message
    Unix(String),
}

impl ExitAs for BindError {
    open spec fn exit_kind(&self) -> ExitErrorType {
        match self {
            BindError::OtherProcessListening(_) => ExitErrorType::UserError,
            BindError::Io(_) => ExitErrorType::Temporary,
            BindError::Unix(_) => ExitErrorType::Temporary,
        }
    }

    fn exit_as(&self) -> (t: ExitErrorType) {
        match self {
            BindError::OtherProcessListening(_) => ExitErrorType::UserError,
            BindError::Io(_) => ExitErrorType::Temporary,
            BindError::Unix(_) => ExitErrorType::Temporary,
        }
    }
}

/// The lock file of a socket: the socket file name with `.lock` appended, in the same
/// directory.
pub open spec fn lockfile_of(socket: Seq<char>) -> Seq<char> {
    path_join(parent_of(socket).unwrap(), file_name_of(socket).unwrap() + ".lock"@)
}

impl View for SocketPath {
    type V = Seq<char>;

    closed spec fn view(&self) -> Seq<char> {
        self.0@
    }
}

impl SocketPath {
    /// Create from the path of the socket.
    /// Must be passed a valid socket file path (ending in a file name).
    pub fn from(socket_path: AbsPathBuf) -> (r: SocketPath)
        ensures
            r@ == socket_path@,
    {
        SocketPath(socket_path)
    }

    /// The absolute path of the socket.
    pub fn as_absolute_path(&self) -> (r: &str)
        ensures
            r@ == self@,
    {
        self.0.as_str()
    }

    /// `display` the path.
    pub fn display(&self) -> (r: &str)
        ensures
            r@ == self@,
    {
        self.0.as_str()
    }

    /// The lock file that guards the socket (see `lockfile_of`).
    /// The socket path must end in a file name.
    pub fn lockfile(&self) -> (r: String)
        requires
            file_name_of(self@) is Some,
        ensures
            r@ == lockfile_of(self@),
    {
        let p = self.0.as_str();
        let name = crate::path::file_name(p);
        let dir = crate::path::parent(p);
        match (name, dir) {
            (Some(mut n), Some(d)) => {
                n.append(".lock");
                crate::path::join(d.as_str(), n.as_str())
            },
            _ => {
                proof {
                    assert(crate::path::components(p@).len() == crate::path::comp_spans(p@).len());
                }
                String::new()
            },
        }
    }
}

impl SocketPath {
    /// The error when the lock file could not be locked: another process listens when the
    /// lock is held elsewhere (the lock would block), any other failure (`errno` is its
    /// message) is a Unix error.
    pub fn lock_error(&self, would_block: bool, errno: String) -> (r: BindError)
        requires
            file_name_of(self@) is Some,
        ensures
            would_block ==> (r matches BindError::OtherProcessListening(l) && l@ == lockfile_of(self@)),
            !would_block ==> (r matches BindError::Unix(m) && m@ == errno@),
    {
        if would_block {
            BindError::OtherProcessListening(self.lockfile())
        } else {
            BindError::Unix(errno)
        }
    }
}

impl Clone for SocketPath {
    fn clone(&self) -> (r: Self)
        ensures
            r@ == self@,
    {
        SocketPath(self.0.clone())
    }
}

} // verus!
