//! Plain data carried between the pipeline stages.
use vstd::prelude::*;

verus! {

/// What one fetch of one target produced.
///
/// Exactly one of three shapes is populated: a status with a body, a status
/// with an error (the body could not be read), or an error alone (the
/// transport failed).
#[derive(Debug, Clone)]
pub struct ProbeResult {
    /// The full address that was fetched.
    pub subdomain: String,
    /// HTTP status code, present when the transport succeeded.
    pub status: Option<u16>,
    /// Response body, present when it could be read.
    pub content: Option<String>,
    /// Error message, present when the transport or the body read failed.
    pub error: Option<String>,
}

impl ProbeResult {
    /// The three shapes a probe outcome may take; no other combination occurs.
    pub open spec fn well_formed(&self) -> bool {
        ||| (self.status is Some && self.content is Some && self.error is None)
        ||| (self.status is Some && self.content is None && self.error is Some)
        ||| (self.status is None && self.content is None && self.error is Some)
    }

    /// The outcome feeds the analysis stage: a status below 400 and a body.
    pub open spec fn is_success(&self) -> bool {
        &&& self.status is Some
        &&& self.status.unwrap() < 400
        &&& self.content is Some
    }
}

/// Summary of one probe outcome, as persisted after the probing stage.
#[derive(Debug, Clone)]
pub struct EntryJson {
    pub subdomain: String,
    pub status: Option<u16>,
    /// Length of the body in bytes, when there is a body.
    pub bytes: Option<usize>,
    pub error: Option<String>,
}

/// A target whose probe succeeded, with its full body: one analysis job.
#[derive(Debug, Clone)]
pub struct SuccessJson {
    pub url: String,
    pub content: String,
}

/// One event record extracted from a page.
#[derive(Debug, Clone)]
pub struct Hackathon {
    /// Name of the event.
    pub name: String,
    /// Most specific address for the event (or the page it was found on).
    pub url: String,
    /// Date or date range as free text.
    pub dates: String,
    /// One-sentence description.
    pub summary: String,
}

impl Hackathon {
    /// A field-by-field copy.
    pub fn clone_record(&self) -> (r: Hackathon)
        ensures
            r == *self,
    {
        Hackathon {
            name: self.name.clone(),
            url: self.url.clone(),
            dates: self.dates.clone(),
            summary: self.summary.clone(),
        }
    }
}

} // verus!
