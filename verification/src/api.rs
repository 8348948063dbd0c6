//! Responses from the monitoring endpoint, and the URL each report is sent to.
//!
//! The HTTP plumbing itself lives outside the library; what is modelled here
//! is the status classification of a response and the derivation of the three
//! report endpoints from a monitor's base URL.

use vstd::prelude::*;

verus! {

/// The three reports a monitor accepts.
#[derive(PartialEq, Eq, Structural, Debug, Clone, Copy)]
pub enum ReportKind {
    Start,
    Fail,
    Complete,
}

/// The path segment each report is posted under.
pub open spec fn report_suffix_spec(kind: ReportKind) -> Seq<char> {
    match kind {
        ReportKind::Start => "start/"@,
        ReportKind::Fail => "fail/"@,
        ReportKind::Complete => "complete/"@,
    }
}

/// The endpoint a report goes to: the monitor's URL followed by the action
/// segment, as in `<url>start/`.
pub fn report_endpoint(base: &str, kind: ReportKind) -> (r: String)
    ensures
        r@ == base@ + report_suffix_spec(kind),
{
    let mut out = base.to_owned();
    match kind {
        ReportKind::Start => out.push_str("start/"),
        ReportKind::Fail => out.push_str("fail/"),
        ReportKind::Complete => out.push_str("complete/"),
    }
    out
}

/// The HTTP method a request to the monitoring endpoint uses.
#[derive(PartialEq, Eq, Structural, Debug, Clone, Copy)]
pub enum Method {
    Get,
    Post,
}

/// The decoded body of a successful report: the monitor's status flag.
#[derive(PartialEq, Eq, Structural, Debug, Clone, Copy)]
pub struct MonitorStatus {
    pub status: i32,
}

/// An HTTP response from the monitoring endpoint: its status code and raw body.
pub struct ApiResponse {
    status: u32,
    body: Vec<u8>,
}

/// An error produced while talking to the monitoring endpoint. Transport
/// errors are handled outside the library; the library itself only ever
/// classifies a delivered response, so an HTTP error status is the one
/// variant needed here.
pub enum ApiError {
    Http(u32, String),
}

impl ApiResponse {
    pub closed spec fn status_spec(&self) -> u32 {
        self.status
    }

    pub closed spec fn body_spec(&self) -> Seq<u8> {
        self.body@
    }

    /// A response is failed exactly when its status code lies in 400..=600.
    pub open spec fn failed_spec(&self) -> bool {
        400 <= self.status_spec() <= 600
    }

    pub fn new(status: u32, body: Vec<u8>) -> (r: ApiResponse)
        ensures
            r.status_spec() == status,
            r.body_spec() == body@,
    {
        ApiResponse { status, body }
    }

    pub fn status(&self) -> (r: u32)
        ensures
            r == self.status_spec(),
    {
        self.status
    }

    pub fn body(&self) -> (r: &Vec<u8>)
        ensures
            r@ == self.body_spec(),
    {
        &self.body
    }

    pub fn failed(&self) -> (r: bool)
        ensures
            r == self.failed_spec(),
    {
        self.status >= 400 && self.status <= 600
    }

    pub fn ok(&self) -> (r: bool)
        ensures
            r == !self.failed_spec(),
    {
        !self.failed()
    }

    /// Classify a delivered response: a non-failed one passes through, a
    /// failed one becomes an HTTP error carrying the endpoint's message — the
    /// body's `detail` field, else its `error` field, else a generic message.
    /// The two fields arrive pre-extracted from the JSON body, which is
    /// decoded outside the library.
    pub fn to_result(self, detail: Option<String>, error: Option<String>) -> (r: Result<
        ApiResponse,
        ApiError,
    >)
        ensures
            !self.failed_spec() ==> (r matches Ok(resp) && resp == self),
            self.failed_spec() ==> (r matches Err(ApiError::Http(status, message)) && status
                == self.status_spec() && message@ == error_detail_spec(detail, error)),
    {
        if self.ok() {
            return Ok(self);
        }
        let status = self.status();
        match detail {
            Some(d) => Err(ApiError::Http(status, d)),
            None => match error {
                Some(e) => Err(ApiError::Http(status, e)),
                None => Err(ApiError::Http(status, "generic error".to_owned())),
            },
        }
    }
}

/// The message a failed response carries: its `detail` field, else its
/// `error` field, else a generic message.
pub open spec fn error_detail_spec(detail: Option<String>, error: Option<String>) -> Seq<char> {
    match detail {
        Some(d) => d@,
        None => match error {
            Some(e) => e@,
            None => "generic error"@,
        },
    }
}

} // verus!
