//! Batch retrieval of invoice PDFs from a web portal: the per-invoice retry
//! policy and the batch orchestration as a verified state machine, with the
//! text handling that surrounds them.
use vstd::prelude::*;

pub mod text;
pub mod excel;
pub mod error;
pub mod naming;
pub mod portal;
pub mod records;
pub mod history;
pub mod captcha;
pub mod session;
pub mod policy;
pub mod orchestrator;

verus! {

} // verus!
