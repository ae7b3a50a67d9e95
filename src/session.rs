//! The exchange between a running batch and whoever carries out its work:
//! the batch hands out a command, the caller performs it and reports back.
use vstd::prelude::*;
use crate::error::AppError;

verus! {

/// What the caller saw when it carried out the last command.
pub enum Report {
    /// Nothing to report: the batch is starting, or the pause is over.
    Ready,
    Opened(Result<(), AppError>),
    Navigated(Result<(), AppError>),
    CodeFilled(Result<(), AppError>),
    /// The captcha image.
    Captured(Result<Vec<u8>, AppError>),
    /// The captcha text that the solver read.
    Solved(Result<String, AppError>),
    CaptchaFilled(Result<(), AppError>),
    Submitted(Result<(), AppError>),
    /// The text of the page's error banner, if one shows.
    Banner(Option<String>),
    /// The bytes behind the PDF link.
    Downloaded(Result<Vec<u8>, AppError>),
    Saved(Result<(), AppError>),
    Closed,
}

/// What the caller is to do next.
pub enum Command {
    /// Open a browser session for the next invoice.
    OpenSession { headless: bool },
    /// Load the portal's search page.
    Navigate(String),
    /// Type the lookup code into the search form.
    FillCode(String),
    /// Take a picture of the captcha.
    CaptureCaptcha,
    /// Have the solver read the captcha image just taken.
    Solve,
    /// Type the captcha text into the form.
    FillCaptcha(String),
    /// Send the form.
    Submit,
    /// Read the page's error banner.
    ReadBanner,
    /// Fetch the PDF that the page links to; the argument is the portal address.
    Download(String),
    /// Write `bytes` to `path`, creating `directory` first if needed.
    Save { directory: String, path: String, bytes: Vec<u8> },
    /// Close the browser session.
    CloseSession,
    /// Wait before the next invoice.
    Pause { seconds: u64 },
    /// The batch is over: collect its result.
    Finish,
}

} // verus!
