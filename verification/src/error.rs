//! Errors with a stable kind and a human-readable context.

use vstd::prelude::*;
use vstd::std_specs::cmp::PartialEqSpec;

verus! {

/// What went wrong, independent of the details.
#[derive(Clone, Copy, Debug, PartialEq, Eq, Structural)]
#[non_exhaustive]
pub enum ErrorKind {
    InvalidValue,
    UnsupportedRevision,
    CapabilityUnavailable,
    AmbiguousName,
    Protocol,
    Transport,
    Discovery,
    Timeout,
    Shutdown,
}

impl ErrorKind {
    /// The words that describe a kind.
    pub open spec fn spec_label(self) -> Seq<char> {
        match self {
            ErrorKind::InvalidValue => "invalid value"@,
            ErrorKind::UnsupportedRevision => "unsupported interface revision"@,
            ErrorKind::CapabilityUnavailable => "capability is unavailable"@,
            ErrorKind::AmbiguousName => "ambiguous name"@,
            ErrorKind::Protocol => "protocol error"@,
            ErrorKind::Transport => "transport error"@,
            ErrorKind::Discovery => "discovery failed"@,
            ErrorKind::Timeout => "request timed out"@,
            ErrorKind::Shutdown => "client is shut down"@,
        }
    }

    /// Returns the words that describe this kind.
    pub fn label(self) -> (r: &'static str)
        ensures
            r@ == self.spec_label(),
    {
        match self {
            ErrorKind::InvalidValue => "invalid value",
            ErrorKind::UnsupportedRevision => "unsupported interface revision",
            ErrorKind::CapabilityUnavailable => "capability is unavailable",
            ErrorKind::AmbiguousName => "ambiguous name",
            ErrorKind::Protocol => "protocol error",
            ErrorKind::Transport => "transport error",
            ErrorKind::Discovery => "discovery failed",
            ErrorKind::Timeout => "request timed out",
            ErrorKind::Shutdown => "client is shut down",
        }
    }
}

/// An error of the SDK: its view is the kind and the context.
#[derive(Debug)]
pub struct Error {
    kind: ErrorKind,
    context: String,
}

impl View for Error {
    type V = (ErrorKind, Seq<char>);

    closed spec fn view(&self) -> (ErrorKind, Seq<char>) {
        (self.kind, self.context@)
    }
}

/// The line that an error with this kind and context prints.
pub open spec fn error_line(error: (ErrorKind, Seq<char>)) -> Seq<char> {
    error.0.spec_label() + ": "@ + error.1
}

impl Error {
    #[must_use]
    pub fn new(kind: ErrorKind, context: &str) -> (r: Self)
        ensures
            r@ == (kind, context@),
    {
        Error { kind, context: context.to_owned() }
    }

    #[must_use]
    pub fn kind(&self) -> (r: ErrorKind)
        ensures
            r == self@.0,
    {
        self.kind
    }

    #[must_use]
    pub fn context(&self) -> (r: &str)
        ensures
            r@ == self@.1,
    {
        self.context.as_str()
    }

    /// Renders the error as `kind: context`.
    #[must_use]
    pub fn to_string(&self) -> (r: String)
        ensures
            r@ == error_line(self@),
    {
        self.kind.label().to_owned().concat(": ").concat(self.context.as_str())
    }
}

impl Clone for Error {
    fn clone(&self) -> (r: Self)
        ensures
            r@ == self@,
    {
        Error { kind: self.kind, context: self.context.clone() }
    }
}

impl PartialEq for Error {
    fn eq(&self, other: &Self) -> (r: bool) {
        self.kind == other.kind && self.context == other.context
    }
}

impl vstd::std_specs::cmp::PartialEqSpecImpl for Error {
    open spec fn obeys_eq_spec() -> bool {
        true
    }

    open spec fn eq_spec(&self, other: &Self) -> bool {
        self@ == other@
    }
}

impl Eq for Error {

}

/// Every kind is described by its own words.
pub proof fn law_kinds_have_their_words(kind: ErrorKind)
    ensures
        kind.spec_label() == match kind {
            ErrorKind::InvalidValue => "invalid value"@,
            ErrorKind::UnsupportedRevision => "unsupported interface revision"@,
            ErrorKind::CapabilityUnavailable => "capability is unavailable"@,
            ErrorKind::AmbiguousName => "ambiguous name"@,
            ErrorKind::Protocol => "protocol error"@,
            ErrorKind::Transport => "transport error"@,
            ErrorKind::Discovery => "discovery failed"@,
            ErrorKind::Timeout => "request timed out"@,
            ErrorKind::Shutdown => "client is shut down"@,
        },
{
}

/// No two kinds are described by the same words.
pub proof fn law_kinds_are_told_apart(a: ErrorKind, b: ErrorKind)
    requires
        a != b,
    ensures
        a.spec_label() != b.spec_label(),
{
    reveal_strlit("invalid value");
    reveal_strlit("unsupported interface revision");
    reveal_strlit("capability is unavailable");
    reveal_strlit("ambiguous name");
    reveal_strlit("protocol error");
    reveal_strlit("transport error");
    reveal_strlit("discovery failed");
    reveal_strlit("request timed out");
    reveal_strlit("client is shut down");
    assert("invalid value"@.len() == 13 && "unsupported interface revision"@.len() == 30
        && "capability is unavailable"@.len() == 25 && "ambiguous name"@.len() == 14
        && "protocol error"@.len() == 14 && "transport error"@.len() == 15
        && "discovery failed"@.len() == 16 && "request timed out"@.len() == 17
        && "client is shut down"@.len() == 19);
    assert("ambiguous name"@[0] == 'a' && "protocol error"@[0] == 'p');
}

/// The line of an error is the words of its kind, a colon and a space, and then its
/// context to the end.
pub proof fn law_lines_name_the_kind_and_the_context(kind: ErrorKind, context: Seq<char>)
    ensures
        ({
            let line = error_line((kind, context));
            let words = kind.spec_label();
            let end = words.len() as int;
            &&& line.len() == words.len() + 2 + context.len()
            &&& line.take(end) == words
            &&& line[end] == ':'
            &&& line[end + 1] == ' '
            &&& line.skip(end + 2) == context
        }),
{
    reveal_strlit(": ");
    let line = error_line((kind, context));
    let words = kind.spec_label();
    assert(line.take(words.len() as int) =~= words);
    assert(line.skip(words.len() as int + 2) =~= context);
}

/// Two errors are equal exactly when their kinds and their contexts are.
pub proof fn law_errors_equal_by_kind_and_context(a: Error, b: Error)
    ensures
        Error::obeys_eq_spec(),
        a.eq_spec(&b) <==> a@.0 == b@.0 && a@.1 == b@.1,
{
}

} // verus!
