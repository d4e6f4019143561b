//! The single error type every rule returns, and how each kind of error is
//! answered over HTTP.

use vstd::prelude::*;

verus! {

/// What went wrong, with the message shown to the user.
#[derive(Debug)]
pub enum AppError {
    NotFound(String),
    Unauthorized,
    Forbidden,
    BadRequest(String),
    /// Business-rule violation: insufficient funds, frozen account, etc.
    Conflict(String),
    /// Something failed on the bank's side; the message is for the log only.
    Internal(String),
}

/// The kind of an [`AppError`], without its message.
#[derive(Clone, Copy, Debug, PartialEq, Eq, Structural)]
pub enum ErrorKind {
    NotFound,
    Unauthorized,
    Forbidden,
    BadRequest,
    Conflict,
    Internal,
}

impl View for AppError {
    type V = (ErrorKind, Seq<char>);

    open spec fn view(&self) -> (ErrorKind, Seq<char>) {
        match self {
            AppError::NotFound(m) => (ErrorKind::NotFound, m@),
            AppError::Unauthorized => (ErrorKind::Unauthorized, Seq::empty()),
            AppError::Forbidden => (ErrorKind::Forbidden, Seq::empty()),
            AppError::BadRequest(m) => (ErrorKind::BadRequest, m@),
            AppError::Conflict(m) => (ErrorKind::Conflict, m@),
            AppError::Internal(m) => (ErrorKind::Internal, m@),
        }
    }
}

/// The error of `kind` with message `msg`, as its view.
pub open spec fn err(kind: ErrorKind, msg: Seq<char>) -> (ErrorKind, Seq<char>) {
    (kind, msg)
}

/// The HTTP status answered for each kind of error.
pub open spec fn status_of(kind: ErrorKind) -> u16 {
    match kind {
        ErrorKind::NotFound => 404,
        ErrorKind::Unauthorized => 401,
        ErrorKind::Forbidden => 403,
        ErrorKind::BadRequest => 400,
        ErrorKind::Conflict => 409,
        ErrorKind::Internal => 500,
    }
}

/// How an error is answered: a redirect to the sign-in page, or an error
/// page with a status, a title and a message.
#[derive(Debug)]
pub enum ErrorReply {
    RedirectToLogin,
    Page { status: u16, title: String, message: String },
}

/// The page title and message shown for an error: the error's own
/// message for not-found, bad-request and conflict errors, fixed texts for
/// forbidden and internal errors (whose details stay in the log).
pub open spec fn page_text(e: (ErrorKind, Seq<char>)) -> (Seq<char>, Seq<char>) {
    match e.0 {
        ErrorKind::NotFound => ("Not Found"@, e.1),
        ErrorKind::Forbidden => ("Forbidden"@, "You don't have permission to access this resource."@),
        ErrorKind::BadRequest => ("Bad Request"@, e.1),
        ErrorKind::Conflict => ("Conflict"@, e.1),
        _ => ("Internal Server Error"@, "Something went wrong on our end. Please try again."@),
    }
}

impl AppError {
    /// The kind of this error.
    pub fn kind(&self) -> (k: ErrorKind)
        ensures
            k == self@.0,
    {
        match self {
            AppError::NotFound(_) => ErrorKind::NotFound,
            AppError::Unauthorized => ErrorKind::Unauthorized,
            AppError::Forbidden => ErrorKind::Forbidden,
            AppError::BadRequest(_) => ErrorKind::BadRequest,
            AppError::Conflict(_) => ErrorKind::Conflict,
            AppError::Internal(_) => ErrorKind::Internal,
        }
    }

    /// The HTTP status for this error.
    pub fn status_code(&self) -> (s: u16)
        ensures
            s == status_of(self@.0),
    {
        match self {
            AppError::NotFound(_) => 404,
            AppError::Unauthorized => 401,
            AppError::Forbidden => 403,
            AppError::BadRequest(_) => 400,
            AppError::Conflict(_) => 409,
            AppError::Internal(_) => 500,
        }
    }

    /// How this error is answered: the unauthorized are sent to sign in,
    /// everything else gets an error page.
    pub fn reply(&self) -> (r: ErrorReply)
        ensures
            self@.0 == ErrorKind::Unauthorized <==> r is RedirectToLogin,
            r matches ErrorReply::Page { status, title, message } ==> status == status_of(self@.0)
                && (title@, message@) == page_text(self@),
    {
        match self {
            AppError::Unauthorized => ErrorReply::RedirectToLogin,
            AppError::NotFound(m) => ErrorReply::Page {
                status: 404,
                title: "Not Found".to_owned(),
                message: m.clone(),
            },
            AppError::Forbidden => ErrorReply::Page {
                status: 403,
                title: "Forbidden".to_owned(),
                message: "You don't have permission to access this resource.".to_owned(),
            },
            AppError::BadRequest(m) => ErrorReply::Page {
                status: 400,
                title: "Bad Request".to_owned(),
                message: m.clone(),
            },
            AppError::Conflict(m) => ErrorReply::Page {
                status: 409,
                title: "Conflict".to_owned(),
                message: m.clone(),
            },
            AppError::Internal(_) => ErrorReply::Page {
                status: 500,
                title: "Internal Server Error".to_owned(),
                message: "Something went wrong on our end. Please try again.".to_owned(),
            },
        }
    }
}

} // verus!
