//! Communication between client and server over a unix socket.

pub mod communicate;
pub mod path;
pub mod read_writer;
