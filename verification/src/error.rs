//! The error type shared by all fallible operations of the crate.

use vstd::prelude::*;

verus! {

/// General categories of errors.
#[derive(Clone, Copy, Debug, PartialEq, Eq, Structural)]
pub enum ErrorKind {
    /// A symbol line could not be parsed, or a pair of lines does not describe
    /// the same symbol.
    InvalidSymbol,
    /// A string names no variant of the enum it was parsed into.
    InvalidEnumStr,
    /// The symbol dump utility could not be run or reported a failure.
    Nm,
    /// The output of the symbol dump utility is not valid text.
    Decoding,
    /// A file could not be found or opened.
    Io,
    /// The terminal is too narrow for the table.
    TableFormat,
}

impl ErrorKind {
    /// The name of the kind, as it is spelled in the source.
    pub open spec fn spec_name(self) -> Seq<char> {
        match self {
            ErrorKind::InvalidSymbol => "InvalidSymbol"@,
            ErrorKind::InvalidEnumStr => "InvalidEnumStr"@,
            ErrorKind::Nm => "Nm"@,
            ErrorKind::Decoding => "Decoding"@,
            ErrorKind::Io => "Io"@,
            ErrorKind::TableFormat => "TableFormat"@,
        }
    }

    /// Returns the name of the kind.
    pub fn name(&self) -> (s: &'static str)
        ensures
            s@ == self.spec_name(),
    {
        match self {
            ErrorKind::InvalidSymbol => "InvalidSymbol",
            ErrorKind::InvalidEnumStr => "InvalidEnumStr",
            ErrorKind::Nm => "Nm",
            ErrorKind::Decoding => "Decoding",
            ErrorKind::Io => "Io",
            ErrorKind::TableFormat => "TableFormat",
        }
    }
}

/// An error: its kind and, where another error caused it, that error's message.
#[derive(Debug)]
pub struct Error {
    kind: ErrorKind,
    cause: Option<String>,
}

impl Error {
    /// The kind of this error.
    pub closed spec fn spec_kind(&self) -> ErrorKind {
        self.kind
    }

    /// The message of the underlying cause, if there is one.
    pub closed spec fn spec_cause(&self) -> Option<Seq<char>> {
        match self.cause {
            Some(c) => Some(c@),
            None => None,
        }
    }

    /// Whether the error is of the given kind and has no cause.
    pub open spec fn is_plain(&self, kind: ErrorKind) -> bool {
        self.spec_kind() == kind && self.spec_cause() is None
    }

    /// What `to_string` returns for an error of the given kind.
    pub open spec fn spec_message(kind: ErrorKind) -> Seq<char> {
        "Atlas error (kind: "@ + kind.spec_name() + ")"@
    }

    /// Creates an error of the given kind without a cause.
    pub fn new(kind: ErrorKind) -> (e: Error)
        ensures
            e.spec_kind() == kind,
            e.spec_cause() is None,
    {
        Error { kind, cause: None }
    }

    /// Attaches the message of an underlying cause, replacing an earlier one.
    pub fn with(self, cause: String) -> (e: Error)
        ensures
            e.spec_kind() == self.spec_kind(),
            e.spec_cause() == Some(cause@),
    {
        Error { kind: self.kind, cause: Some(cause) }
    }

    /// Returns the kind of the error.
    pub fn kind(&self) -> (k: ErrorKind)
        ensures
            k == self.spec_kind(),
    {
        self.kind
    }

    /// Consumes the error and returns the message of its cause, if it has one.
    pub fn into_cause(self) -> (c: Option<String>)
        ensures
            match c {
                Some(m) => self.spec_cause() == Some(m@),
                None => self.spec_cause() is None,
            },
    {
        self.cause
    }

    /// Renders the error for display. The cause is not part of the text.
    pub fn to_string(&self) -> (s: String)
        ensures
            s@ == Self::spec_message(self.spec_kind()),
    {
        let mut s = String::from_str("Atlas error (kind: ");
        s.append(self.kind.name());
        s.append(")");
        s
    }
}

} // verus!
