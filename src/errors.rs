//! The kinds of failure that a download can end in.
use vstd::prelude::*;

verus! {

/// Why an attempt, or a whole job, failed.
#[derive(Clone, Copy, Debug, PartialEq, Eq, Structural)]
pub enum ErrorKind {
    /// Creating a directory, opening, writing or flushing the target file.
    Filesystem,
    /// Connection or status failure during the probe or the stream.
    Network,
    /// The probe's answer declared no usable size.
    MissingLength,
    /// The body ended before the declared length was on disk.
    IncompleteStream,
    /// A malformed quality label.
    Format,
    /// No quality label to choose from.
    EmptyCandidates,
    /// The links of an item could not be resolved.
    Resolve,
}

/// Whether another attempt may mend a failure of this kind: a malformed or
/// empty set of labels is the caller's fault and stays as it is.
pub open spec fn spec_is_retryable(k: ErrorKind) -> bool {
    !(k is Format || k is EmptyCandidates)
}

impl ErrorKind {
    /// Whether another attempt may mend a failure of this kind.
    pub fn is_retryable(&self) -> (r: bool)
        ensures
            r == spec_is_retryable(*self),
    {
        match self {
            ErrorKind::Format | ErrorKind::EmptyCandidates => false,
            _ => true,
        }
    }
}

/// The terminal failure of a download job.
#[derive(Clone, Copy, Debug, PartialEq, Eq, Structural)]
pub struct DownloadError {
    pub kind: ErrorKind,
}

impl DownloadError {
    /// A failure of kind `kind`.
    pub fn new(kind: ErrorKind) -> (r: DownloadError)
        ensures
            r.kind == kind,
    {
        DownloadError { kind }
    }

    /// A sentence that says what went wrong.
    pub fn message(&self) -> (r: &'static str)
        ensures
            r@ == error_message(self.kind),
    {
        match self.kind {
            ErrorKind::Filesystem => "Error while downloading the file: a file operation failed",
            ErrorKind::Network => "Error while downloading the file: the connection failed",
            ErrorKind::MissingLength => "Error while downloading the file: no usable Content-Length",
            ErrorKind::IncompleteStream => "Error while downloading the file: the body ended early",
            ErrorKind::Format => "Error while downloading the file: malformed quality label",
            ErrorKind::EmptyCandidates => "Error while downloading the file: no quality to choose from",
            ErrorKind::Resolve => "Error while downloading the file: links could not be resolved",
        }
    }
}

/// The message of a failed download, by kind.
pub open spec fn error_message(k: ErrorKind) -> Seq<char> {
    match k {
        ErrorKind::Filesystem => "Error while downloading the file: a file operation failed"@,
        ErrorKind::Network => "Error while downloading the file: the connection failed"@,
        ErrorKind::MissingLength => "Error while downloading the file: no usable Content-Length"@,
        ErrorKind::IncompleteStream => "Error while downloading the file: the body ended early"@,
        ErrorKind::Format => "Error while downloading the file: malformed quality label"@,
        ErrorKind::EmptyCandidates => "Error while downloading the file: no quality to choose from"@,
        ErrorKind::Resolve => "Error while downloading the file: links could not be resolved"@,
    }
}

} // verus!
