use vstd::prelude::*;

verus! {

/// Failures surfaced by descriptor parsing and by script derivation.
#[derive(Clone, Debug)]
pub enum Error {
    /// The trailing checksum does not match the descriptor body, or the
    /// input holds a character over which no checksum can be computed.
    ChecksumMismatch,
    /// The descriptor body is not a well-formed `name(arg,...)` expression.
    InvalidExpression,
    /// The expression is well formed but is not `addr` applied to exactly
    /// one argument; carries the observed name and argument count.
    MalformedExpression { name: String, n_args: usize },
    /// The argument of `addr` is not a valid address; carries the address
    /// parser's message.
    InvalidAddress(String),
    /// The address's output type has no explicit script.
    NoExplicitScript,
    /// The address's output type has no script code.
    NoScriptCode,
}

/// The ghost image of an [`Error`]. The message inside `InvalidAddress`
/// comes from the address parser and is not specified, so it is dropped
/// here: two `InvalidAddress` errors are the same failure.
#[verifier::ext_equal]
pub enum ErrorV {
    ChecksumMismatch,
    InvalidExpression,
    MalformedExpression { name: Seq<char>, n_args: int },
    InvalidAddress,
    NoExplicitScript,
    NoScriptCode,
}

impl View for Error {
    type V = ErrorV;

    open spec fn view(&self) -> ErrorV {
        match self {
            Error::ChecksumMismatch => ErrorV::ChecksumMismatch,
            Error::InvalidExpression => ErrorV::InvalidExpression,
            Error::MalformedExpression { name, n_args } => (ErrorV::MalformedExpression {
                name: name@,
                n_args: *n_args as int,
            }),
            Error::InvalidAddress(_) => ErrorV::InvalidAddress,
            Error::NoExplicitScript => ErrorV::NoExplicitScript,
            Error::NoScriptCode => ErrorV::NoScriptCode,
        }
    }
}

} // verus!
