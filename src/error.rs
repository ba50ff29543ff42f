//! The errors of the library.
use vstd::prelude::*;
use vstd::string::StringExecFns;

verus! {

/// An error, with the text that describes its cause.
#[derive(Debug, Clone)]
pub enum AppError {
    Database(String),
    Migration(String),
    Http(String),
    RssParsing(String),
    Io(String),
    NotFound(String),
    InvalidInput(String),
    DownloadCancelled,
    Other(String),
}

/// The text shown for an error.
pub open spec fn error_text(e: AppError) -> Seq<char> {
    match e {
        AppError::Database(m) => "Database error: "@ + m@,
        AppError::Migration(m) => "Migration error: "@ + m@,
        AppError::Http(m) => "HTTP error: "@ + m@,
        AppError::RssParsing(m) => "RSS parsing error: "@ + m@,
        AppError::Io(m) => "IO error: "@ + m@,
        AppError::NotFound(m) => "Not found: "@ + m@,
        AppError::InvalidInput(m) => "Invalid input: "@ + m@,
        AppError::DownloadCancelled => "Download cancelled"@,
        AppError::Other(m) => m@,
    }
}

impl AppError {
    /// The text shown for this error.
    pub fn message(&self) -> (r: String)
        ensures
            r@ == error_text(*self),
    {
        match self {
            AppError::Database(m) => "Database error: ".to_owned().concat(m.as_str()),
            AppError::Migration(m) => "Migration error: ".to_owned().concat(m.as_str()),
            AppError::Http(m) => "HTTP error: ".to_owned().concat(m.as_str()),
            AppError::RssParsing(m) => "RSS parsing error: ".to_owned().concat(m.as_str()),
            AppError::Io(m) => "IO error: ".to_owned().concat(m.as_str()),
            AppError::NotFound(m) => "Not found: ".to_owned().concat(m.as_str()),
            AppError::InvalidInput(m) => "Invalid input: ".to_owned().concat(m.as_str()),
            AppError::DownloadCancelled => "Download cancelled".to_owned(),
            AppError::Other(m) => m.clone(),
        }
    }
}

} // verus!
