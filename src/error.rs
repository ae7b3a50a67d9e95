//! The library's error type and its human-readable text.
use vstd::prelude::*;
use crate::text::{decimal, decimal_digits};

verus! {

/// What went wrong, with the detail that is shown to the user.
#[derive(Debug)]
pub enum AppError {
    ExcelError(String),
    BrowserError(String),
    NetworkError(String),
    DatabaseError(String),
    ElementNotFound(String),
    CaptchaFailed(u32),
    DownloadFailed(String),
    ConfigError(String),
    IoError(String),
}

/// The text shown for an error: a fixed prefix per kind and its detail.
pub open spec fn error_text(e: AppError) -> Seq<char> {
    match e {
        AppError::ExcelError(s) => "Excel parsing error: "@ + s@,
        AppError::BrowserError(s) => "Browser error: "@ + s@,
        AppError::NetworkError(s) => "Network error: "@ + s@,
        AppError::DatabaseError(s) => "Database error: "@ + s@,
        AppError::ElementNotFound(s) => "Element not found: "@ + s@,
        AppError::CaptchaFailed(n) => "Captcha solving failed after "@ + decimal_digits(n as nat)
            + " attempts"@,
        AppError::DownloadFailed(s) => "Download failed: "@ + s@,
        AppError::ConfigError(s) => "Invalid configuration: "@ + s@,
        AppError::IoError(s) => "IO error: "@ + s@,
    }
}

fn prefixed(prefix: &str, detail: &String) -> (r: String)
    ensures
        r@ == prefix@ + detail@,
{
    let mut out = String::from_str(prefix);
    out.append(detail.as_str());
    out
}

impl AppError {
    /// The error's text, as it is shown to the user and in logs.
    pub fn message(&self) -> (r: String)
        ensures
            r@ == error_text(*self),
    {
        match self {
            AppError::ExcelError(s) => prefixed("Excel parsing error: ", s),
            AppError::BrowserError(s) => prefixed("Browser error: ", s),
            AppError::NetworkError(s) => prefixed("Network error: ", s),
            AppError::DatabaseError(s) => prefixed("Database error: ", s),
            AppError::ElementNotFound(s) => prefixed("Element not found: ", s),
            AppError::CaptchaFailed(n) => {
                let mut out = String::from_str("Captcha solving failed after ");
                let digits = decimal(*n);
                out.append(digits.as_str());
                out.append(" attempts");
                out
            },
            AppError::DownloadFailed(s) => prefixed("Download failed: ", s),
            AppError::ConfigError(s) => prefixed("Invalid configuration: ", s),
            AppError::IoError(s) => prefixed("IO error: ", s),
        }
    }
}

} // verus!
