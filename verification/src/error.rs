use vstd::prelude::*;

verus! {

/// The Python exception class under which an error is raised.
#[derive(Debug, Clone, Copy, PartialEq, Eq, Structural)]
pub enum ErrorKind {
    /// Raised as `ValueError`: the caller handed in an unusable argument.
    Value,
    /// Raised as `RuntimeError`: something failed while preparing or running the child.
    Runtime,
}

/// An error of a sandboxed execution: its class and its message.
#[derive(Debug)]
pub struct ExecError {
    pub kind: ErrorKind,
    pub message: String,
}

impl ExecError {
    /// True when the error carries exactly this class and message.
    pub open spec fn is(self, kind: ErrorKind, message: Seq<char>) -> bool {
        self.kind == kind && self.message@ == message
    }

    /// An error of the given class with the given message.
    pub fn new(kind: ErrorKind, message: String) -> (e: ExecError)
        ensures
            e.is(kind, message@),
    {
        ExecError { kind, message }
    }

    /// A `RuntimeError` whose message is `prefix` followed by `detail`.
    pub fn runtime_with_detail(prefix: &str, detail: &str) -> (e: ExecError)
        ensures
            e.is(ErrorKind::Runtime, prefix@ + detail@),
    {
        let mut message = prefix.to_owned();
        message.append(detail);
        ExecError { kind: ErrorKind::Runtime, message }
    }
}

} // verus!
