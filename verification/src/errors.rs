//! The engine's error taxonomy.
//!
//! Validation errors are produced synchronously, before any network or file
//! activity. Probe and fetch errors propagate to the orchestrator, which has
//! no retry policy: any single part's failure fails the whole job.

use vstd::prelude::*;

verus! {

/// The supplied string is not a syntactically valid absolute URL.
/// Carries the parser's diagnostic.
#[derive(Debug, Clone)]
pub struct InvalidUrl(pub String);

/// The supplied output directory path was rejected.
#[derive(Debug, Clone)]
pub struct InvalidPath(pub String);

/// Failure of the capability probe.
#[derive(Debug, Clone)]
pub enum ProbeError {
    /// The probe request could not be completed.
    Network(String),
    /// The probe request exceeded its time budget.
    Timeout,
    /// A response header was present but unusable: a non-numeric
    /// `Content-Length`, or a `Content-Disposition` without a
    /// `filename=` parameter.
    MalformedHeader(String),
}

/// Failure of a single ranged part fetch.
#[derive(Debug, Clone)]
pub enum FetchError {
    /// A transport error while sending the request or streaming the body.
    Network(String),
    /// The origin did not honor the range request: a status other than
    /// 206 Partial Content. Carries the observed status code and the
    /// response body for diagnosis.
    UnexpectedStatus(u16, String),
    /// A request header value could not be constructed or read.
    MalformedHeader(String),
}

/// Failure of the transfer orchestrator.
#[derive(Debug, Clone)]
pub enum OrchestratorError {
    /// `start` was called on a job that is missing a probed capability
    /// record, a target URL, or an output directory.
    PreconditionNotMet,
    /// A part fetch failed; carries the first encountered failure.
    PartFailed(FetchError),
}

/// Failure of the persistence sink.
#[derive(Debug, Clone)]
pub enum IoError {
    /// The output directory could not be created.
    DirectoryCreate(String),
    /// The assembled buffer could not be written or flushed.
    FileWrite(String),
}

} // verus!
