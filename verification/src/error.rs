//! The error that every request handler answers with.

use crate::text::{str_eq, IntError};
use vstd::prelude::*;

verus! {

/// An error as it is sent to the client: an HTTP status, a short subject and
/// an optional detail.
#[derive(Clone, Debug)]
pub struct AppErr {
    status: u16,
    subject: String,
    content: Option<String>,
}

/// The model of an [`AppErr`].
pub struct Reply {
    pub status: u16,
    pub subject: Seq<char>,
    pub content: Option<Seq<char>>,
}

/// What the storage layer reports when a statement fails, as far as the
/// answer depends on it.
#[derive(Clone, Debug)]
pub enum StoreFailure {
    /// A row was asked for and none was found.
    RowNotFound,
    /// The database refused the statement, with this code if it gave one.
    Database(Option<String>),
    /// Anything else.
    Other,
}

/// The kinds of outside error that are passed on as they are.
#[derive(Clone, Copy, Debug, PartialEq, Eq, Structural)]
pub enum Source {
    Io,
    Payload,
    ParseFloat,
    ParseInt,
    FromUtf8,
    Json,
    ToStr,
}

/// The code with which the database reports that a unique value is taken.
pub open spec fn unique_violation() -> Seq<char> {
    "2067"@
}

impl View for AppErr {
    type V = Reply;

    closed spec fn view(&self) -> Reply {
        Reply {
            status: self.status,
            subject: self.subject@,
            content: match self.content {
                Some(text) => Some(text@),
                None => None,
            },
        }
    }
}

impl Reply {
    /// The status that is sent: the stated one if HTTP knows it as a status
    /// code, else 500.
    pub open spec fn status_code(self) -> u16 {
        if 100 <= self.status <= 999 {
            self.status
        } else {
            500
        }
    }

    /// The error of last resort: status 500, and no detail.
    pub open spec fn server_error() -> Reply {
        Reply { status: 500, subject: "server error"@, content: None }
    }

    /// The request is at fault: status 400.
    pub open spec fn bad_request(detail: Seq<char>) -> Reply {
        Reply { status: 400, subject: "bad request"@, content: Some(detail) }
    }

    /// The caller may not do this: status 403.
    pub open spec fn forbidden(detail: Seq<char>) -> Reply {
        Reply { status: 403, subject: "forbidden"@, content: Some(detail) }
    }

    /// What was asked for is not there: status 404.
    pub open spec fn not_found(detail: Seq<char>) -> Reply {
        Reply { status: 404, subject: "not found"@, content: Some(detail) }
    }

    /// The answer to a failure of the storage layer.
    pub open spec fn of_store(failure: StoreFailure) -> Reply {
        match failure {
            StoreFailure::RowNotFound => Reply {
                status: 404,
                subject: "not found"@,
                content: None,
            },
            StoreFailure::Database(Some(code)) if code@ == unique_violation() => Reply {
                status: 400,
                subject: "a similar item was found"@,
                content: None,
            },
            _ => Reply::server_error(),
        }
    }

    /// The answer to an outside error of kind `source` that describes
    /// itself as `detail`.
    pub open spec fn wrapped(source: Source, detail: Seq<char>) -> Reply {
        Reply { status: 500, subject: source.name(), content: Some(detail) }
    }
}

impl Source {
    /// The name under which the kind is reported.
    pub open spec fn name(self) -> Seq<char> {
        match self {
            Source::Io => "io::Error"@,
            Source::Payload => "PayloadError"@,
            Source::ParseFloat => "ParseFloatError"@,
            Source::ParseInt => "ParseIntError"@,
            Source::FromUtf8 => "FromUtf8Error"@,
            Source::Json => "serde_json::Error"@,
            Source::ToStr => "ToStrError"@,
        }
    }

    /// The name under which the kind is reported.
    pub fn as_str(&self) -> (r: &'static str)
        ensures
            r@ == self.name(),
    {
        match self {
            Source::Io => "io::Error",
            Source::Payload => "PayloadError",
            Source::ParseFloat => "ParseFloatError",
            Source::ParseInt => "ParseIntError",
            Source::FromUtf8 => "FromUtf8Error",
            Source::Json => "serde_json::Error",
            Source::ToStr => "ToStrError",
        }
    }
}

impl IntError {
    /// How the error describes itself.
    pub open spec fn message(self) -> Seq<char> {
        match self {
            IntError::Empty => "cannot parse integer from empty string"@,
            IntError::InvalidDigit => "invalid digit found in string"@,
            IntError::PosOverflow => "number too large to fit in target type"@,
            IntError::NegOverflow => "number too small to fit in target type"@,
        }
    }

    /// How the error describes itself.
    pub fn as_str(&self) -> (r: &'static str)
        ensures
            r@ == self.message(),
    {
        match self {
            IntError::Empty => "cannot parse integer from empty string",
            IntError::InvalidDigit => "invalid digit found in string",
            IntError::PosOverflow => "number too large to fit in target type",
            IntError::NegOverflow => "number too small to fit in target type",
        }
    }
}

impl AppErr {
    /// An error with a status and a subject, and no detail.
    pub fn new(status: u16, subject: &str) -> (r: Self)
        ensures
            r@ == (Reply { status, subject: subject@, content: None }),
    {
        Self { status, subject: subject.to_string(), content: None }
    }

    /// The error of last resort.
    pub fn default() -> (r: Self)
        ensures
            r@ == Reply::server_error(),
    {
        Self { status: 500, subject: "server error".to_string(), content: None }
    }

    /// An error with a status, a subject and a detail.
    pub fn with_content(status: u16, subject: &str, content: &str) -> (r: Self)
        ensures
            r@ == (Reply { status, subject: subject@, content: Some(content@) }),
    {
        Self { status, subject: subject.to_string(), content: Some(content.to_string()) }
    }

    /// The request is at fault: status 400.
    pub fn bad_request(detail: &str) -> (r: Self)
        ensures
            r@ == Reply::bad_request(detail@),
    {
        Self::with_content(400, "bad request", detail)
    }

    /// The caller may not do this: status 403.
    pub fn forbidden(detail: &str) -> (r: Self)
        ensures
            r@ == Reply::forbidden(detail@),
    {
        Self::with_content(403, "forbidden", detail)
    }

    /// What was asked for is not there: status 404.
    pub fn not_found(detail: &str) -> (r: Self)
        ensures
            r@ == Reply::not_found(detail@),
    {
        Self::with_content(404, "not found", detail)
    }

    /// A message alone is a server error with the message as its subject.
    pub fn from_message(message: &str) -> (r: Self)
        ensures
            r@ == (Reply { status: 500, subject: message@, content: None }),
    {
        Self::new(500, message)
    }

    /// The answer to a failure of the storage layer: a missing row is not
    /// found, a taken unique value is the request's fault, all else is a
    /// server error.
    pub fn from_store(failure: &StoreFailure) -> (r: Self)
        ensures
            r@ == Reply::of_store(*failure),
    {
        match failure {
            StoreFailure::RowNotFound => Self::new(404, "not found"),
            StoreFailure::Database(Some(code)) => {
                if str_eq(code.as_str(), "2067") {
                    Self::new(400, "a similar item was found")
                } else {
                    Self::default()
                }
            },
            _ => Self::default(),
        }
    }

    /// The answer to an outside error of kind `source` that describes
    /// itself as `detail`.
    pub fn wrapped(source: Source, detail: &str) -> (r: Self)
        ensures
            r@ == Reply::wrapped(source, detail@),
    {
        Self::with_content(500, source.as_str(), detail)
    }

    /// The answer to a number that could not be read.
    pub fn from_int_error(error: IntError) -> (r: Self)
        ensures
            r@ == Reply::wrapped(Source::ParseInt, error.message()),
    {
        Self::wrapped(Source::ParseInt, error.as_str())
    }

    /// The answer to an error of the web framework, which brings its own
    /// status.
    pub fn from_response(status: u16, detail: &str) -> (r: Self)
        ensures
            r@ == (Reply { status, subject: "Err"@, content: Some(detail@) }),
    {
        Self::with_content(status, "Err", detail)
    }

    /// The status as it was stated.
    pub fn status(&self) -> (r: u16)
        ensures
            r == self@.status,
    {
        self.status
    }

    /// The subject.
    pub fn subject(&self) -> (r: &str)
        ensures
            r@ == self@.subject,
    {
        self.subject.as_str()
    }

    /// The detail, if there is one.
    pub fn content(&self) -> (r: Option<&str>)
        ensures
            r is Some <==> self@.content is Some,
            r matches Some(text) ==> text@ == self@.content->0,
    {
        match &self.content {
            Some(text) => Some(text.as_str()),
            None => None,
        }
    }

    /// The status that is sent to the client.
    pub fn status_code(&self) -> (r: u16)
        ensures
            r == self@.status_code(),
    {
        if 100 <= self.status && self.status <= 999 {
            self.status
        } else {
            500
        }
    }
}

} // verus!
