//! The error taxonomy of the pipeline supervisor.

use vstd::prelude::*;

verus! {

/// What can go wrong while starting, running or stopping a pipeline.
#[derive(Debug)]
pub enum PipelineError {
    /// The pipeline expression is empty or malformed: some stage of it
    /// tokenizes to no words at all.
    ParseError,
    /// A stage's executable could not be spawned; carries the index of the
    /// failing stage and its executable name.
    SpawnError { stage_index: usize, name: String },
    /// A metadata record (or a source file) is absent: the pipeline is not
    /// running, or was never registered.
    NotFound,
    /// Delivery of the termination signal failed.
    SignalError,
    /// Any other file-system failure, for example a permission problem
    /// while creating the log or metadata directories.
    IoError,
}

/// The part of an operating-system I/O error that this library's decisions
/// read: just enough to tell "absent" and "forbidden" from the rest.
#[derive(Debug)]
pub enum IoErrorKind {
    NotFound,
    PermissionDenied,
    Other,
}

impl PipelineError {
    /// Classifies a file-system failure: an absent file or directory is the
    /// distinguished "not running / not found" outcome, everything else is a
    /// generic I/O failure.
    pub fn from_io_kind(kind: &IoErrorKind) -> (r: PipelineError)
        ensures
            kind is NotFound <==> r is NotFound,
            !(kind is NotFound) <==> r is IoError,
    {
        match kind {
            IoErrorKind::NotFound => PipelineError::NotFound,
            _ => PipelineError::IoError,
        }
    }
}

} // verus!
