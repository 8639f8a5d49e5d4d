//! The library's error type.
use vstd::prelude::*;

verus! {

/// Errors of the library, each with a human-readable detail.
#[derive(Debug, Clone)]
pub enum AppError {
    InvalidInput(String),
    NotFound(String),
    Io(String),
    Git(String),
    Github(String),
    Json(String),
    Db(String),
    Dependency(String),
    Process(String),
    Conflict(String),
}

pub type AppResult<T> = Result<T, AppError>;

/// The text an error is displayed as: a fixed prefix per variant, then the detail.
pub open spec fn error_text(e: AppError) -> Seq<char> {
    match e {
        AppError::InvalidInput(m) => "invalid input: "@ + m@,
        AppError::NotFound(m) => "not found: "@ + m@,
        AppError::Io(m) => "io error: "@ + m@,
        AppError::Git(m) => "git command failed: "@ + m@,
        AppError::Github(m) => "github resolution failed: "@ + m@,
        AppError::Json(m) => "json error: "@ + m@,
        AppError::Db(m) => "database error: "@ + m@,
        AppError::Dependency(m) => "dependency sync failed: "@ + m@,
        AppError::Process(m) => "process error: "@ + m@,
        AppError::Conflict(m) => "conflict: "@ + m@,
    }
}

fn prefixed(prefix: &str, m: &String) -> (r: String)
    ensures
        r@ == prefix@ + m@,
{
    let mut r = String::from_str(prefix);
    r.append(m.as_str());
    r
}

impl AppError {
    /// The error as displayed to the user.
    pub fn message(&self) -> (r: String)
        ensures
            r@ == error_text(*self),
    {
        match self {
            AppError::InvalidInput(m) => prefixed("invalid input: ", m),
            AppError::NotFound(m) => prefixed("not found: ", m),
            AppError::Io(m) => prefixed("io error: ", m),
            AppError::Git(m) => prefixed("git command failed: ", m),
            AppError::Github(m) => prefixed("github resolution failed: ", m),
            AppError::Json(m) => prefixed("json error: ", m),
            AppError::Db(m) => prefixed("database error: ", m),
            AppError::Dependency(m) => prefixed("dependency sync failed: ", m),
            AppError::Process(m) => prefixed("process error: ", m),
            AppError::Conflict(m) => prefixed("conflict: ", m),
        }
    }
}

} // verus!
