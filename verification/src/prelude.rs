//! Errors of the interpreter and the outcome of a step that may fail.

use vstd::prelude::*;

verus! {

/// The errors that building a module from the syntax tree can report.
#[derive(Debug)]
pub enum NoPhpError {
    /// The tree does not have the shape the module expects.
    MalformedAST,
    /// A literal cannot be read as a NoPHP value.
    ValueParseError,
    /// A comparison names an operator that does not exist.
    InvalidEqOp(String),
    /// Any other error, with its message.
    Other(&'static str),
}

/// The model of a [`NoPhpError`].
pub enum ErrorKind {
    MalformedAST,
    ValueParseError,
    InvalidEqOp(Seq<char>),
    Other(Seq<char>),
}

impl View for NoPhpError {
    type V = ErrorKind;

    open spec fn view(&self) -> ErrorKind {
        match self {
            NoPhpError::MalformedAST => ErrorKind::MalformedAST,
            NoPhpError::ValueParseError => ErrorKind::ValueParseError,
            NoPhpError::InvalidEqOp(s) => ErrorKind::InvalidEqOp(s@),
            NoPhpError::Other(s) => ErrorKind::Other(s@),
        }
    }
}

/// What a step of the interpreter does on an input: it panics, it reports an
/// error, or it succeeds with a value.
pub enum Outcome<T> {
    Panic,
    Fail(ErrorKind),
    Done(T),
}

/// What building something from the tree gives: the thing, an error, or
/// the point where the original program panics.
#[derive(Debug)]
pub enum Built<T> {
    Panic,
    Fail(NoPhpError),
    Done(T),
}

/// A `Built` of the library agrees with an outcome.
pub open spec fn built_matches<T, U>(b: Built<T>, o: Outcome<U>, model: spec_fn(T) -> U) -> bool {
    match (b, o) {
        (Built::Done(t), Outcome::Done(u)) => model(t) == u,
        (Built::Fail(e), Outcome::Fail(k)) => e@ == k,
        (Built::Panic, Outcome::Panic) => true,
        _ => false,
    }
}

impl<T> Built<T> {
    /// The `Result` of something built without a panic.
    pub fn into_result(self) -> (r: Result<T, NoPhpError>)
        requires
            !(self is Panic),
        ensures
            match self {
                Built::Done(t) => r == Ok::<T, NoPhpError>(t),
                Built::Fail(e) => r == Err::<T, NoPhpError>(e),
                Built::Panic => false,
            },
    {
        match self {
            Built::Done(t) => Ok(t),
            Built::Fail(e) => Err(e),
            Built::Panic => vstd::pervasive::unreached(),
        }
    }
}

/// A `Result` of the library agrees with an outcome that does not panic.
pub open spec fn result_matches<T, U>(
    r: Result<T, NoPhpError>,
    o: Outcome<U>,
    model: spec_fn(T) -> U,
) -> bool {
    match o {
        Outcome::Done(u) => r matches Ok(t) && model(t) == u,
        Outcome::Fail(e) => r matches Err(err) && err@ == e,
        Outcome::Panic => false,
    }
}

} // verus!
