//! lorri: a `nix-shell` replacement that rebuilds project environments in the background.
//!
//! This crate holds the verified core of lorri: the decisions of the build loop and of the
//! daemon, the parsing of evaluator output, the wire format of build events, the layout of
//! garbage collection roots and the exit-code conventions of the command line.

pub mod error;
pub mod text;
pub mod cli;
pub mod path;
pub mod builder;
pub mod project;
pub mod build_loop;
pub mod proto;
pub mod internal_proto;
pub mod watch;
pub mod socket;
pub mod daemon;
pub mod ops;
pub mod sqlite;
pub mod changelog;
pub mod crash;
pub mod json;
