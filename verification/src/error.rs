//! Exit errors returned from an operation of the command line.
//!
//! Based in part on the execline convention
//! (see <https://skarnet.org/software/execline/exitcodes.html>).
//!
//! All commands exit
//! - 1 if they encounter an expected error
//! - 100 if they encounter a permanent error (“the user is holding it wrong”)
//! - 101 if they encounter a programming error, like a panic or failed assert
//! - 111 if they encounter a temporary error, such as resource exhaustion
//! - 126 if there is a problem with the environment in which lorri is run
//! - 127 if they're trying to execute into a program and cannot find it

use vstd::prelude::*;

verus! {

/// The exit codes an `ExitError` may carry.
pub open spec fn is_exit_code(c: i32) -> bool {
    c == 1 || c == 100 || c == 101 || c == 111 || c == 126 || c == 127
}

/// Non-zero exit status from an operation, together with the message shown to the user.
#[derive(Debug)]
pub struct ExitError {
    /// Exit code of the process, always one of the codes above
    exitcode: i32,
    /// The rendered error message (including its chain of causes)
    message: String,
}

/// enum that lists all the possible `ExitError`s we support.
/// See `ExitAs` for the use.
#[derive(Debug, Clone, Copy, PartialEq, Eq)]
pub enum ExitErrorType {
    /// exit code 1
    ExpectedError,
    /// exit code 100
    UserError,
    /// exit code 101
    Panic,
    /// exit code 111
    Temporary,
    /// exit code 126
    EnvironmentProblem,
    /// exit code 127
    MissingExecutable,
}

/// The exit code that belongs to each kind of exit error.
pub open spec fn code_of(t: ExitErrorType) -> i32 {
    match t {
        ExitErrorType::ExpectedError => 1,
        ExitErrorType::UserError => 100,
        ExitErrorType::Panic => 101,
        ExitErrorType::Temporary => 111,
        ExitErrorType::EnvironmentProblem => 126,
        ExitErrorType::MissingExecutable => 127,
    }
}

/// Helper trait to implement the kind of exit code an error variant would cause.
pub trait ExitAs {
    /// The kind of exit error this value is converted to.
    spec fn exit_kind(&self) -> ExitErrorType;

    /// The `ExitErrorType` the implementing error should be converted to if it happens.
    fn exit_as(&self) -> (t: ExitErrorType)
        ensures
            t == self.exit_kind(),
    ;
}

impl ExitError {
    #[verifier::type_invariant]
    spec fn inv(self) -> bool {
        is_exit_code(self.exitcode)
    }

    /// The exit code of this error.
    pub closed spec fn code(self) -> i32 {
        self.exitcode
    }

    /// The message of this error.
    pub closed spec fn msg(self) -> Seq<char> {
        self.message@
    }

    fn with_code(exitcode: i32, message: String) -> (r: ExitError)
        requires
            is_exit_code(exitcode),
        ensures
            r.code() == exitcode,
            r.msg() == message@,
    {
        ExitError { exitcode, message }
    }

    /// Exit 1 to signify a generic expected error
    /// (e.g. something that sometimes just goes wrong, like a nix build).
    pub fn expected_error(message: String) -> (r: ExitError)
        ensures
            r.code() == 1,
            r.msg() == message@,
    {
        Self::with_code(1, message)
    }

    /// Exit 100 to signify a user error (“the user is holding it wrong”).
    /// This is a permanent error, if the program is executed the same way
    /// it should crash with 100 again.
    pub fn user_error(message: String) -> (r: ExitError)
        ensures
            r.code() == 100,
            r.msg() == message@,
    {
        Self::with_code(100, message)
    }

    /// Exit 101 to signify an unexpected crash (failing assertion or panic).
    /// This is the same exit code that `panic!()` emits.
    pub fn panic(message: String) -> (r: ExitError)
        ensures
            r.code() == 101,
            r.msg() == message@,
    {
        Self::with_code(101, message)
    }

    /// Exit 111 to signify a temporary error (such as resource exhaustion)
    pub fn temporary(message: String) -> (r: ExitError)
        ensures
            r.code() == 111,
            r.msg() == message@,
    {
        Self::with_code(111, message)
    }

    /// Exit 126 to signify an environment problem
    /// (the user has set up stuff incorrectly so lorri cannot work)
    pub fn environment_problem(message: String) -> (r: ExitError)
        ensures
            r.code() == 126,
            r.msg() == message@,
    {
        Self::with_code(126, message)
    }

    /// Exit 127 to signify a missing executable.
    pub fn missing_executable(message: String) -> (r: ExitError)
        ensures
            r.code() == 127,
            r.msg() == message@,
    {
        Self::with_code(127, message)
    }

    /// The exit error for a plain I/O error, given its message: such errors count as
    /// temporary (exit 111).
    pub fn from_io_error(message: String) -> (r: ExitError)
        ensures
            r.code() == 111,
            r.msg() == message@,
    {
        Self::temporary(message)
    }

    /// The exit error for a command line the argument parser rejected, given its message:
    /// the user's error (exit 100).
    pub fn from_usage_error(message: String) -> (r: ExitError)
        ensures
            r.code() == 100,
            r.msg() == message@,
    {
        Self::user_error(message)
    }

    /// Build the exit error of the given kind.
    pub fn of_type(t: ExitErrorType, message: String) -> (r: ExitError)
        ensures
            r.code() == code_of(t),
            r.msg() == message@,
    {
        match t {
            ExitErrorType::ExpectedError => ExitError::expected_error(message),
            ExitErrorType::UserError => ExitError::user_error(message),
            ExitErrorType::Panic => ExitError::panic(message),
            ExitErrorType::Temporary => ExitError::temporary(message),
            ExitErrorType::EnvironmentProblem => ExitError::environment_problem(message),
            ExitErrorType::MissingExecutable => ExitError::missing_executable(message),
        }
    }

    /// Convert an error that knows its exit kind, with the given rendered message.
    pub fn from_exit_as<E: ExitAs>(err: &E, message: String) -> (r: ExitError)
        ensures
            r.code() == code_of(err.exit_kind()),
            r.msg() == message@,
    {
        Self::of_type(err.exit_as(), message)
    }

    /// Exit code of the failure message, guaranteed to be > 0
    pub fn exitcode(&self) -> (c: i32)
        ensures
            c == self.code(),
            c > 0,
            is_exit_code(c),
    {
        proof {
            use_type_invariant(self);
        }
        self.exitcode
    }

    /// Exit message to be displayed to the user on stderr
    pub fn message(&self) -> (m: String)
        ensures
            m@ == self.msg(),
    {
        self.message.clone()
    }
}

} // verus!
