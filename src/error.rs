use vstd::prelude::*;

verus! {

/// The class of a failure, which decides how a run reacts to it.
#[derive(Clone, Copy, Debug, PartialEq, Eq, Structural)]
pub enum ErrorKind {
    /// Raised without a more precise class.
    General,
    /// Bad input to a run: directories, key, action or thread count.
    Configuration,
    /// The catalog of jobs could not be built.
    Catalog,
    /// One job's cipher call failed; the run goes on.
    Job,
    /// An internal failure inside a worker; fatal for the run.
    Pool,
}

/// An error of this library, with the cipher tool's diagnostics when a job failed.
#[derive(Debug)]
pub struct SfError {
    pub kind: ErrorKind,
    pub message: String,
    pub stderr: Option<String>,
    pub stdout: Option<String>,
}

pub type SfResult = Result<(), SfError>;

impl SfError {
    pub fn new(message: String) -> (r: SfError)
        ensures
            r.kind == ErrorKind::General,
            r.message@ == message@,
            r.stderr is None,
            r.stdout is None,
    {
        SfError { kind: ErrorKind::General, message, stderr: None, stdout: None }
    }

    pub fn with_kind(kind: ErrorKind, message: String) -> (r: SfError)
        ensures
            r.kind == kind,
            r.message@ == message@,
            r.stderr is None,
            r.stdout is None,
    {
        SfError { kind, message, stderr: None, stdout: None }
    }

    pub fn kind(&self) -> (r: ErrorKind)
        ensures
            r == self.kind,
    {
        self.kind
    }
}

} // verus!
