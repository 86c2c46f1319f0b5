//! The error type shared by every component, with its HTTP rendering rules.

use vstd::prelude::*;
use crate::text::concat2;

verus! {

/// The seven kinds of failure the service distinguishes.
#[derive(Debug, Clone, Copy, PartialEq, Eq, Structural)]
pub enum ErrorKind {
    BadRequest,
    NotFound,
    Internal,
    Storage,
    Download,
    Processing,
    Timeout,
}

/// A failure: its kind and a human-readable message.
#[derive(Debug, Clone, PartialEq)]
pub enum AppError {
    BadRequest(String),
    NotFound(String),
    Internal(String),
    Storage(String),
    Download(String),
    Processing(String),
    Timeout(String),
}

pub type AppResult<T> = Result<T, AppError>;

/// The JSON envelope sent to a client for a failed request.
#[derive(Debug, Clone)]
pub struct ErrorResponse {
    pub error: String,
    pub error_type: String,
    pub message: String,
}

/// HTTP status code for each kind of failure.
pub open spec fn status_of(kind: ErrorKind) -> int {
    match kind {
        ErrorKind::BadRequest => 400,
        ErrorKind::NotFound => 404,
        ErrorKind::Internal => 500,
        ErrorKind::Storage => 500,
        ErrorKind::Download => 400,
        ErrorKind::Processing => 500,
        ErrorKind::Timeout => 408,
    }
}

/// The `error_type` tag of the envelope for each kind of failure.
pub open spec fn error_type_of(kind: ErrorKind) -> Seq<char> {
    match kind {
        ErrorKind::BadRequest => "bad_request"@,
        ErrorKind::NotFound => "not_found"@,
        ErrorKind::Internal => "internal_error"@,
        ErrorKind::Storage => "storage_error"@,
        ErrorKind::Download => "download_error"@,
        ErrorKind::Processing => "processing_error"@,
        ErrorKind::Timeout => "timeout_error"@,
    }
}

/// The words that precede the message when a failure is printed.
pub open spec fn display_prefix(kind: ErrorKind) -> Seq<char> {
    match kind {
        ErrorKind::BadRequest => "Bad Request error: "@,
        ErrorKind::NotFound => "Not Found error: "@,
        ErrorKind::Internal => "Internal error: "@,
        ErrorKind::Storage => "Storage error: "@,
        ErrorKind::Download => "Download error: "@,
        ErrorKind::Processing => "Processing error: "@,
        ErrorKind::Timeout => "Timeout error: "@,
    }
}

/// What a failure looks like when printed: prefix, then message.
pub open spec fn display_of(kind: ErrorKind, message: Seq<char>) -> Seq<char> {
    display_prefix(kind) + message
}

/// The failure a result stands for, or `None` for success.
pub open spec fn failure_of<T>(r: Result<T, AppError>) -> Option<(ErrorKind, Seq<char>)> {
    match r {
        Ok(_) => None,
        Err(e) => Some(e@),
    }
}

impl View for AppError {
    type V = (ErrorKind, Seq<char>);

    open spec fn view(&self) -> (ErrorKind, Seq<char>) {
        (self.spec_kind(), self.spec_message())
    }
}

impl AppError {
    pub open spec fn spec_kind(&self) -> ErrorKind {
        match self {
            AppError::BadRequest(_) => ErrorKind::BadRequest,
            AppError::NotFound(_) => ErrorKind::NotFound,
            AppError::Internal(_) => ErrorKind::Internal,
            AppError::Storage(_) => ErrorKind::Storage,
            AppError::Download(_) => ErrorKind::Download,
            AppError::Processing(_) => ErrorKind::Processing,
            AppError::Timeout(_) => ErrorKind::Timeout,
        }
    }

    pub open spec fn spec_message(&self) -> Seq<char> {
        match self {
            AppError::BadRequest(m) => m@,
            AppError::NotFound(m) => m@,
            AppError::Internal(m) => m@,
            AppError::Storage(m) => m@,
            AppError::Download(m) => m@,
            AppError::Processing(m) => m@,
            AppError::Timeout(m) => m@,
        }
    }

    /// Builds the failure of the given kind with the given message.
    pub fn new(kind: ErrorKind, message: String) -> (e: AppError)
        ensures
            e@ == (kind, message@),
    {
        match kind {
            ErrorKind::BadRequest => AppError::BadRequest(message),
            ErrorKind::NotFound => AppError::NotFound(message),
            ErrorKind::Internal => AppError::Internal(message),
            ErrorKind::Storage => AppError::Storage(message),
            ErrorKind::Download => AppError::Download(message),
            ErrorKind::Processing => AppError::Processing(message),
            ErrorKind::Timeout => AppError::Timeout(message),
        }
    }

    /// A `BadRequest` failure with the given message.
    pub fn bad_request(message: &str) -> (e: AppError)
        ensures
            e@ == (ErrorKind::BadRequest, message@),
    {
        AppError::BadRequest(message.to_owned())
    }

    /// A `Download` failure with the given message.
    pub fn download(message: &str) -> (e: AppError)
        ensures
            e@ == (ErrorKind::Download, message@),
    {
        AppError::Download(message.to_owned())
    }

    /// The kind of this failure.
    #[verifier::when_used_as_spec(spec_kind)]
    pub fn kind(&self) -> (k: ErrorKind)
        ensures
            k == self.spec_kind(),
    {
        match self {
            AppError::BadRequest(_) => ErrorKind::BadRequest,
            AppError::NotFound(_) => ErrorKind::NotFound,
            AppError::Internal(_) => ErrorKind::Internal,
            AppError::Storage(_) => ErrorKind::Storage,
            AppError::Download(_) => ErrorKind::Download,
            AppError::Processing(_) => ErrorKind::Processing,
            AppError::Timeout(_) => ErrorKind::Timeout,
        }
    }

    /// The message of this failure.
    pub fn message(&self) -> (m: &str)
        ensures
            m@ == self.spec_message(),
    {
        match self {
            AppError::BadRequest(m) => m.as_str(),
            AppError::NotFound(m) => m.as_str(),
            AppError::Internal(m) => m.as_str(),
            AppError::Storage(m) => m.as_str(),
            AppError::Download(m) => m.as_str(),
            AppError::Processing(m) => m.as_str(),
            AppError::Timeout(m) => m.as_str(),
        }
    }

    /// The HTTP status code under which this failure is reported.
    pub fn status_code(&self) -> (code: u16)
        ensures
            code == status_of(self.spec_kind()),
    {
        match self {
            AppError::BadRequest(_) => 400,
            AppError::NotFound(_) => 404,
            AppError::Internal(_) => 500,
            AppError::Storage(_) => 500,
            AppError::Download(_) => 400,
            AppError::Processing(_) => 500,
            AppError::Timeout(_) => 408,
        }
    }

    /// The `error_type` tag of the envelope.
    pub fn error_type(&self) -> (tag: &'static str)
        ensures
            tag@ == error_type_of(self.spec_kind()),
    {
        match self {
            AppError::BadRequest(_) => "bad_request",
            AppError::NotFound(_) => "not_found",
            AppError::Internal(_) => "internal_error",
            AppError::Storage(_) => "storage_error",
            AppError::Download(_) => "download_error",
            AppError::Processing(_) => "processing_error",
            AppError::Timeout(_) => "timeout_error",
        }
    }

    /// The printed form of this failure, such as `Download error: no route`.
    pub fn to_display_string(&self) -> (s: String)
        ensures
            s@ == display_of(self.spec_kind(), self.spec_message()),
    {
        let prefix = match self {
            AppError::BadRequest(_) => "Bad Request error: ",
            AppError::NotFound(_) => "Not Found error: ",
            AppError::Internal(_) => "Internal error: ",
            AppError::Storage(_) => "Storage error: ",
            AppError::Download(_) => "Download error: ",
            AppError::Processing(_) => "Processing error: ",
            AppError::Timeout(_) => "Timeout error: ",
        };
        concat2(prefix, self.message())
    }

    /// The envelope for this failure: the fixed word `request_failed`, the
    /// tag of the kind, and the message unchanged.
    pub fn error_response(&self) -> (body: ErrorResponse)
        ensures
            body.error@ == "request_failed"@,
            body.error_type@ == error_type_of(self.spec_kind()),
            body.message@ == self.spec_message(),
    {
        ErrorResponse {
            error: "request_failed".to_owned(),
            error_type: self.error_type().to_owned(),
            message: self.message().to_owned(),
        }
    }
}

} // verus!
