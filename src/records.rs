//! The values a batch takes in and hands out: its settings, its requests,
//! the events it reports, and its result.
use vstd::prelude::*;

verus! {

/// The settings of one batch, fixed once it starts.
pub struct DownloadConfig {
    pub vnpt_url: String,
    pub openai_api_key: String,
    pub download_directory: String,
    pub headless: bool,
}

/// One invoice to fetch: the caller's identifier and the portal lookup code.
pub struct InvoiceDownloadRequest {
    pub id: String,
    pub code: String,
}

/// A request to start a batch.
pub struct StartDownloadRequest {
    pub batch_id: String,
    pub invoices: Vec<InvoiceDownloadRequest>,
    pub config: DownloadConfig,
}

/// How far a batch has come.
pub struct ProgressEvent {
    pub batch_id: String,
    pub current: u32,
    pub total: u32,
    pub percentage: u32,
}

/// A line of the batch's log.
pub struct LogEvent {
    pub batch_id: String,
    pub timestamp: String,
    pub level: String,
    pub message: String,
}

/// A change in the state of one invoice.
pub struct InvoiceStatusEvent {
    pub batch_id: String,
    pub invoice_id: String,
    pub status: String,
    pub error: Option<String>,
    pub file_path: Option<String>,
}

/// A captcha that the solver could not read, handed out for a person to read.
pub struct CaptchaRequiredEvent {
    pub batch_id: String,
    pub invoice_id: String,
    pub invoice_code: String,
    pub image_base64: String,
}

/// How one invoice of a batch ended.
pub struct InvoiceResult {
    pub invoice_id: String,
    pub code: String,
    pub status: String,
    pub error: Option<String>,
    pub file_path: Option<String>,
}

/// What a batch hands back once it is over.
pub struct BatchResult {
    pub batch_id: String,
    pub total: u32,
    pub success_count: u32,
    pub failed_count: u32,
    pub results: Vec<InvoiceResult>,
}

/// The share of `total` that `current` makes, in whole percent rounded down;
/// zero for an empty batch.
pub open spec fn percent(current: nat, total: nat) -> nat {
    if total > 0 {
        current * 100 / total
    } else {
        0
    }
}

/// The percentage shown with a progress event.
pub fn progress_percentage(current: u32, total: u32) -> (r: u32)
    requires
        current <= total,
    ensures
        r == percent(current as nat, total as nat),
{
    if total > 0 {
        let c: u64 = current as u64;
        let t: u64 = total as u64;
        let p: u64 = c * 100 / t;
        assert((c as int) * 100 / (t as int) <= 100) by (nonlinear_arith)
            requires
                c <= t,
                t > 0,
        ;
        p as u32
    } else {
        0
    }
}

impl LogEvent {
    /// A log line of a batch, stamped with `timestamp`.
    pub fn new(batch_id: &String, timestamp: String, level: &str, message: String) -> (r: LogEvent)
        ensures
            r.batch_id == batch_id,
            r.timestamp == timestamp,
            r.level@ == level@,
            r.message == message,
    {
        LogEvent { batch_id: batch_id.clone(), timestamp, level: String::from_str(level), message }
    }
}

} // verus!
