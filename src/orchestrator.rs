//! A batch run: the executable state machine that follows the rules of
//! `policy`. Each call of `step` takes the report of the last command and the
//! current reading of the cancellation flag, and hands back the events to emit
//! and the next command.
use vstd::prelude::*;
use crate::captcha::{base64_of, encode_base64};
use crate::error::{error_text, AppError};
use crate::naming::{invoice_pdf_path, pdf_path};
use crate::policy::{
    answers, checkpoint, end_task, initial_view, lemma_next_keeps_inv, lemma_picks_push, logged,
    next_view, picks, retry, settle, start_attempt, successes, view_inv, wrap_up, Ending, Mark,
    MarkKind, RunView, Stage, MAX_RETRIES,
};
use crate::portal::is_captcha_rejection;
use crate::records::{
    percent, progress_percentage, BatchResult, CaptchaRequiredEvent, DownloadConfig,
    InvoiceDownloadRequest, InvoiceResult, InvoiceStatusEvent, ProgressEvent,
};
use crate::session::{Command, Report};
use crate::text::{decimal, decimal_digits};

verus! {

broadcast use lemma_picks_push;

/// The seconds to wait between two invoices, to spare the portal.
pub const PAUSE_SECONDS: u64 = 2;

/// The severity of a log line.
#[derive(PartialEq, Eq, Structural, Clone, Copy, Debug)]
pub enum LogLevel {
    Info,
    Warn,
}

impl LogLevel {
    /// The level as it appears in a log event.
    pub fn as_str(&self) -> (r: &'static str)
        ensures
            *self == LogLevel::Info ==> r@ == "info"@,
            *self == LogLevel::Warn ==> r@ == "warn"@,
    {
        match self {
            LogLevel::Info => "info",
            LogLevel::Warn => "warn",
        }
    }
}

/// An event for the batch's listeners. The position, where there is one, is
/// that of the invoice within the batch.
pub enum Notice {
    Progress(ProgressEvent),
    Log(LogLevel, String),
    /// The status `downloading`.
    Started(usize, InvoiceStatusEvent),
    /// The final status: `success` or `failed`.
    Settled(usize, InvoiceStatusEvent),
    CaptchaRequired(usize, CaptchaRequiredEvent),
}

/// What the rules see of an event.
pub open spec fn mark_of(n: Notice) -> Mark {
    match n {
        Notice::Progress(e) => Mark::Progress(e.current as nat, e.total as nat),
        Notice::Log(_, _) => Mark::Log,
        Notice::Started(j, _) => Mark::Started(j as nat),
        Notice::Settled(j, _) => Mark::Settled(j as nat),
        Notice::CaptchaRequired(j, _) => Mark::Alert(j as nat),
    }
}

/// What the rules see of a sequence of events.
pub open spec fn marks_of(ns: Seq<Notice>) -> Seq<Mark>
    decreases ns.len(),
{
    if ns.len() == 0 {
        seq![]
    } else {
        marks_of(ns.drop_last()).push(mark_of(ns.last()))
    }
}

proof fn lemma_marks_of_push(ns: Seq<Notice>, n: Notice)
    ensures
        marks_of(ns.push(n)) == marks_of(ns).push(mark_of(n)),
{
    assert(ns.push(n).drop_last() =~= ns);
}

/// The events of one step and the command that follows them.
pub struct Step {
    pub notices: Vec<Notice>,
    pub command: Command,
}

/// The closing log line of a batch.
pub open spec fn summary_text(success: nat, failed: nat, total: nat) -> Seq<char> {
    "Batch complete: "@ + decimal_digits(success) + "/"@ + decimal_digits(total)
        + " successful, "@ + decimal_digits(failed) + "/"@ + decimal_digits(total) + " failed"@
}

/// The last of `ns` is the closing log line of a batch with these counts.
pub open spec fn ends_with_summary(ns: Seq<Notice>, success: nat, failed: nat, total: nat) -> bool {
    ns.len() > 0 && (ns.last() matches Notice::Log(level, m) && level == LogLevel::Info && m@
        == summary_text(success, failed, total))
}

/// The cancellation line stands just before the closing progress event and
/// summary line at the end of `ns`.
pub open spec fn cancelled_before_close(ns: Seq<Notice>) -> bool {
    ns.len() >= 3 && (ns[ns.len() - 3] matches Notice::Log(level, m) && level == LogLevel::Warn
        && m@ == "Download batch cancelled by user"@)
}

/// The record of an invoice with an outcome: its request's identifier and
/// code, and either the saved path or an error text.
pub open spec fn record_fits(
    r: InvoiceResult,
    req: InvoiceDownloadRequest,
    config: DownloadConfig,
) -> bool {
    &&& r.invoice_id == req.id
    &&& r.code == req.code
    &&& (r.status@ == "success"@ && r.error is None && (r.file_path matches Some(p) && p@
        == pdf_path(config.download_directory@, req.code@))) || (r.status@ == "failed"@
        && r.error is Some && r.file_path is None)
}

/// What an emitted event says, given the batch it belongs to.
pub open spec fn notice_fits(
    n: Notice,
    batch_id: String,
    invoices: Seq<InvoiceDownloadRequest>,
    results: Seq<InvoiceResult>,
) -> bool {
    match n {
        Notice::Progress(e) => e.batch_id == batch_id && e.current <= e.total && e.total
            == invoices.len() && e.percentage == percent(e.current as nat, e.total as nat),
        Notice::Log(_, _) => true,
        Notice::Started(j, e) => j < invoices.len() && e.batch_id == batch_id && e.invoice_id
            == invoices[j as int].id && e.status@ == "downloading"@ && e.error is None
            && e.file_path is None,
        Notice::Settled(j, e) => j < results.len() && e.batch_id == batch_id && e.invoice_id
            == results[j as int].invoice_id && e.status == results[j as int].status && e.error
            == results[j as int].error && e.file_path == results[j as int].file_path,
        Notice::CaptchaRequired(j, e) => j < invoices.len() && e.batch_id == batch_id
            && e.invoice_id == invoices[j as int].id && e.invoice_code == invoices[j as int].code,
    }
}

proof fn lemma_fits_grow(
    ns: Seq<Notice>,
    batch_id: String,
    invoices: Seq<InvoiceDownloadRequest>,
    results: Seq<InvoiceResult>,
    r: InvoiceResult,
)
    requires
        forall|i: int|
            0 <= i < ns.len() ==> notice_fits(#[trigger] ns[i], batch_id, invoices, results),
    ensures
        forall|i: int|
            0 <= i < ns.len() ==> notice_fits(
                #[trigger] ns[i],
                batch_id,
                invoices,
                results.push(r),
            ),
{
    assert forall|i: int| 0 <= i < ns.len() implies notice_fits(
        #[trigger] ns[i],
        batch_id,
        invoices,
        results.push(r),
    ) by {
        assert(notice_fits(ns[i], batch_id, invoices, results));
        match ns[i] {
            Notice::Settled(j, e) => {
                assert(results.push(r)[j as int] == results[j as int]);
            },
            _ => {},
        }
    }
}

proof fn lemma_settled_listed(ns: Seq<Notice>, a: int)
    requires
        0 <= a < ns.len(),
        ns[a] is Settled,
    ensures
        picks(marks_of(ns), MarkKind::Settled).contains(ns[a]->Settled_0 as nat),
    decreases ns.len(),
{
    let n = ns.drop_last();
    let p = picks(marks_of(n), MarkKind::Settled);
    assert(marks_of(ns) == marks_of(n).push(mark_of(ns.last())));
    assert(picks(marks_of(ns), MarkKind::Settled) == p + crate::policy::pick(
        mark_of(ns.last()),
        MarkKind::Settled,
    ));
    if a == ns.len() - 1 {
        let all = picks(marks_of(ns), MarkKind::Settled);
        assert(all[p.len() as int] == ns[a]->Settled_0 as nat);
    } else {
        assert(n[a] == ns[a]);
        lemma_settled_listed(n, a);
        let x = ns[a]->Settled_0 as nat;
        let i = choose|i: int| 0 <= i < p.len() && p[i] == x;
        let all = picks(marks_of(ns), MarkKind::Settled);
        assert(all[i] == x);
    }
}

/// Events that carry distinct positions where the rules see distinct
/// positions: no two final statuses name the same position.
proof fn lemma_settled_distinct(ns: Seq<Notice>)
    requires
        forall|x: int, y: int|
            0 <= x < y < picks(marks_of(ns), MarkKind::Settled).len() ==> picks(
                marks_of(ns),
                MarkKind::Settled,
            )[x] != picks(marks_of(ns), MarkKind::Settled)[y],
    ensures
        forall|a: int, b: int|
            0 <= a < b < ns.len() && ns[a] is Settled && ns[b] is Settled ==> ns[a]->Settled_0
                != ns[b]->Settled_0,
    decreases ns.len(),
{
    if ns.len() > 0 {
        let n = ns.drop_last();
        let p = picks(marks_of(n), MarkKind::Settled);
        let all = picks(marks_of(ns), MarkKind::Settled);
        assert(marks_of(ns) == marks_of(n).push(mark_of(ns.last())));
        assert(all == p + crate::policy::pick(mark_of(ns.last()), MarkKind::Settled));
        assert forall|x: int, y: int| 0 <= x < y < p.len() implies p[x] != p[y] by {
            assert(all[x] == p[x] && all[y] == p[y]);
        }
        lemma_settled_distinct(n);
        assert forall|a: int, b: int|
            0 <= a < b < ns.len() && ns[a] is Settled && ns[b] is Settled implies ns[a]->Settled_0
                != ns[b]->Settled_0 by {
            if b < ns.len() - 1 {
                assert(n[a] == ns[a] && n[b] == ns[b]);
            } else {
                assert(n[a] == ns[a]);
                lemma_settled_listed(n, a);
                let x = ns[a]->Settled_0 as nat;
                let i = choose|i: int| 0 <= i < p.len() && p[i] == x;
                assert(all[i] == x);
                assert(all[p.len() as int] == ns[b]->Settled_0 as nat);
            }
        }
    }
}

/// A batch in progress.
pub struct BatchRun {
    batch_id: String,
    config: DownloadConfig,
    invoices: Vec<InvoiceDownloadRequest>,
    stage: Stage,
    next: usize,
    attempt: u32,
    alerts: u32,
    captcha_image: Vec<u8>,
    ending: Option<Result<String, AppError>>,
    ending_kind: Option<Ending>,
    success_count: u32,
    failed_count: u32,
    results: Vec<InvoiceResult>,
    trace: Ghost<Seq<Notice>>,
}

impl View for BatchRun {
    type V = RunView;

    closed spec fn view(&self) -> RunView {
        self.view_with(seq![])
    }
}

impl BatchRun {
    /// The view of the batch once the events in `pending` are emitted too.
    closed spec fn view_with(&self, pending: Seq<Notice>) -> RunView {
        RunView {
            stage: self.stage,
            total: self.invoices@.len(),
            next: self.next as nat,
            attempt: self.attempt as nat,
            alerts: self.alerts as nat,
            ending: self.ending_kind,
            success: self.success_count as nat,
            failed: self.failed_count as nat,
            outcomes: self.results@.map_values(|r: InvoiceResult| r.status@ == "success"@),
            marks: marks_of(self.trace@ + pending),
        }
    }

    /// The batch's identifier.
    pub closed spec fn batch_id_view(&self) -> String {
        self.batch_id
    }

    /// The batch's settings.
    pub closed spec fn config_view(&self) -> DownloadConfig {
        self.config
    }

    /// The invoices of the batch, in order.
    pub closed spec fn invoices_view(&self) -> Seq<InvoiceDownloadRequest> {
        self.invoices@
    }

    /// The outcomes so far, in order.
    pub closed spec fn results_view(&self) -> Seq<InvoiceResult> {
        self.results@
    }

    /// Every event emitted so far, in order.
    pub closed spec fn trace_view(&self) -> Seq<Notice> {
        self.trace@
    }

    /// How the invoice in hand ended, while its session closes.
    pub closed spec fn ending_view(&self) -> Option<Result<String, AppError>> {
        self.ending
    }

    /// The captcha image of the attempt in progress.
    pub closed spec fn captcha_view(&self) -> Seq<u8> {
        self.captcha_image@
    }

    /// What the batch's fields hold, with `pending` events emitted on top of
    /// those already recorded.
    closed spec fn holds(&self, pending: Seq<Notice>) -> bool {
        &&& self.invoices@.len() <= u32::MAX
        &&& self.next <= self.invoices@.len()
        &&& self.results@.len() <= self.next
        &&& self.success_count + self.failed_count == self.results@.len()
        &&& self.captcha_image@.len() <= isize::MAX / 2
        &&& forall|j: int|
            0 <= j < self.results@.len() ==> record_fits(
                #[trigger] self.results@[j],
                self.invoices@[j],
                self.config,
            )
        &&& forall|i: int|
            0 <= i < (self.trace@ + pending).len() ==> notice_fits(
                #[trigger] (self.trace@ + pending)[i],
                self.batch_id,
                self.invoices@,
                self.results@,
            )
        &&& (self.ending is Some <==> self.ending_kind is Some)
        &&& self.ending_kind is Some ==> 0 < self.next
        &&& self.ending_kind == Some(Ending::Saved) ==> (self.ending matches Some(Ok(p)) && p@
            == pdf_path(self.config.download_directory@, self.invoices@[self.next - 1].code@))
        &&& self.ending_kind == Some(Ending::Cancelled) ==> (self.ending matches Some(
            Err(AppError::DownloadFailed(m)),
        ) && m@ == "Download cancelled"@)
        &&& self.ending_kind == Some(Ending::Exhausted) ==> (self.ending matches Some(
            Err(AppError::CaptchaFailed(n)),
        ) && n == MAX_RETRIES)
        &&& self.ending_kind == Some(Ending::Fault) ==> (self.ending matches Some(Err(_)))
    }

    /// The parts that only `step` itself changes are as in `other`.
    closed spec fn frame(&self, other: &BatchRun) -> bool {
        &&& self.batch_id == other.batch_id
        &&& self.config == other.config
        &&& self.invoices == other.invoices
        &&& self.captcha_image == other.captcha_image
        &&& self.trace == other.trace
    }

    /// The batch is in a state that its rules allow.
    pub closed spec fn wf(&self) -> bool {
        self.holds(seq![]) && view_inv(self@)
    }

    /// The code of the invoice in hand.
    closed spec fn current_code(&self) -> Seq<char> {
        self.invoices@[self.next - 1].code@
    }

    proof fn lemma_view_with_push(&self, pending: Seq<Notice>, n: Notice)
        ensures
            self.view_with(pending.push(n)) == (RunView {
                marks: self.view_with(pending).marks.push(mark_of(n)),
                ..self.view_with(pending)
            }),
    {
        assert(self.trace@ + pending.push(n) =~= (self.trace@ + pending).push(n));
        lemma_marks_of_push(self.trace@ + pending, n);
    }

    proof fn lemma_holds_push(&self, pending: Seq<Notice>, n: Notice)
        requires
            self.holds(pending),
            notice_fits(n, self.batch_id, self.invoices@, self.results@),
        ensures
            self.holds(pending.push(n)),
    {
        assert(self.trace@ + pending.push(n) =~= (self.trace@ + pending).push(n));
        let all = (self.trace@ + pending).push(n);
        assert forall|i: int| 0 <= i < all.len() implies notice_fits(
            #[trigger] all[i],
            self.batch_id,
            self.invoices@,
            self.results@,
        ) by {
            if i < all.len() - 1 {
                assert(all[i] == (self.trace@ + pending)[i]);
            }
        }
    }
}


/// How an invoice's end shows in the batch: saved at the invoice's path, or
/// failed with the cancellation error, with the exhausted-attempts error, or
/// with the error of the step that failed.
pub open spec fn ending_fits(
    kind: Option<Ending>,
    ending: Option<Result<String, AppError>>,
    path: Seq<char>,
) -> bool {
    &&& (ending is Some <==> kind is Some)
    &&& kind == Some(Ending::Saved) ==> (ending matches Some(Ok(p)) && p@ == path)
    &&& kind == Some(Ending::Cancelled) ==> (ending matches Some(
        Err(AppError::DownloadFailed(m)),
    ) && m@ == "Download cancelled"@)
    &&& kind == Some(Ending::Exhausted) ==> (ending matches Some(Err(AppError::CaptchaFailed(n)))
        && n == MAX_RETRIES)
    &&& kind == Some(Ending::Fault) ==> (ending matches Some(Err(_)))
}

/// The record of an invoice that ended with `ending`.
pub open spec fn records_ending(
    r: InvoiceResult,
    req: InvoiceDownloadRequest,
    ending: Result<String, AppError>,
) -> bool {
    &&& r.invoice_id == req.id
    &&& r.code == req.code
    &&& match ending {
        Ok(p) => r.status@ == "success"@ && r.file_path == Some(p) && r.error is None,
        Err(e) => r.status@ == "failed"@ && r.file_path is None && (r.error matches Some(m) && m@
            == error_text(e)),
    }
}

/// The command that each stage hands out, for the invoice with lookup code `code`.
pub open spec fn command_fits(c: Command, s: Stage, config: DownloadConfig, code: Seq<char>) -> bool {
    match s {
        Stage::Opening => c matches Command::OpenSession { headless } && headless == config.headless,
        Stage::Navigating => c matches Command::Navigate(u) && u == config.vnpt_url,
        Stage::FillingCode => c matches Command::FillCode(k) && k@ == code,
        Stage::Capturing => c is CaptureCaptcha,
        Stage::Solving => c is Solve,
        Stage::FillingCaptcha => c is FillCaptcha,
        Stage::Submitting => c is Submit,
        Stage::Verifying => c is ReadBanner,
        Stage::Downloading => c matches Command::Download(u) && u == config.vnpt_url,
        Stage::Saving => c matches Command::Save { directory, path, bytes } && directory
            == config.download_directory && path@ == pdf_path(config.download_directory@, code),
        Stage::Closing => c is CloseSession,
        Stage::Pausing => c matches Command::Pause { seconds } && seconds == PAUSE_SECONDS,
        Stage::Finished => c is Finish,
        Stage::Ready => false,
    }
}

/// Checks the settings of a batch before it starts: the captcha service needs
/// its key and the portal its address. Nothing else is fatal to a batch.
pub fn check_config(config: &DownloadConfig) -> (r: Result<(), AppError>)
    ensures
        r is Ok <==> config.openai_api_key@.len() > 0 && config.vnpt_url@.len() > 0,
        config.openai_api_key@.len() == 0 ==> (r matches Err(AppError::ConfigError(m)) && m@
            == "OpenAI API key is not set"@),
        config.openai_api_key@.len() > 0 && config.vnpt_url@.len() == 0 ==> (r matches Err(
            AppError::ConfigError(m),
        ) && m@ == "Portal URL is not set"@),
{
    if config.openai_api_key.as_str().unicode_len() == 0 {
        return Err(AppError::ConfigError(String::from_str("OpenAI API key is not set")));
    }
    if config.vnpt_url.as_str().unicode_len() == 0 {
        return Err(AppError::ConfigError(String::from_str("Portal URL is not set")));
    }
    Ok(())
}

fn copy_text(o: &Option<String>) -> (r: Option<String>)
    ensures
        r == *o,
{
    match o {
        Some(t) => Some(t.clone()),
        None => None,
    }
}

fn joined_text(a: &str, b: &str) -> (r: String)
    ensures
        r@ == a@ + b@,
{
    let mut out = String::from_str(a);
    out.append(b);
    out
}

impl BatchRun {
    /// A batch of `invoices`, not started yet.
    pub fn new(batch_id: String, config: DownloadConfig, invoices: Vec<InvoiceDownloadRequest>) -> (r: BatchRun)
        requires
            invoices@.len() <= u32::MAX,
        ensures
            r.wf(),
            r@ == initial_view(invoices@.len()),
            r.batch_id_view() == batch_id,
            r.config_view() == config,
            r.invoices_view() == invoices@,
            r.results_view().len() == 0,
            r.trace_view().len() == 0,
    {
        let trace: Ghost<Seq<Notice>> = Ghost(Seq::empty());
        let r = BatchRun {
            batch_id,
            config,
            invoices,
            stage: Stage::Ready,
            next: 0,
            attempt: 0,
            alerts: 0,
            captcha_image: Vec::new(),
            ending: None,
            ending_kind: None,
            success_count: 0,
            failed_count: 0,
            results: Vec::new(),
            trace,
        };
        proof {
            assert(r.trace@ + seq![] =~= seq![]);
            assert(r.results@.map_values(|x: InvoiceResult| x.status@ == "success"@) =~= seq![]);
            assert(r@ == initial_view(r.invoices@.len()));
            let v = initial_view(r.invoices@.len());
            assert(crate::policy::picks(v.marks, crate::policy::MarkKind::Started) =~= crate::policy::positions(0));
            assert(crate::policy::picks(v.marks, crate::policy::MarkKind::Settled) =~= crate::policy::positions(0));
            assert(crate::policy::picks(v.marks, crate::policy::MarkKind::Progress) =~= crate::policy::ordinals(0));
            assert(view_inv(v));
        }
        r
    }

    /// The batch's identifier.
    pub fn batch_id(&self) -> (r: &String)
        ensures
            *r == self.batch_id_view(),
    {
        &self.batch_id
    }

    /// Where the batch stands.
    pub fn stage(&self) -> (r: Stage)
        ensures
            r == self@.stage,
    {
        self.stage
    }

    fn wrap_up_exec(&mut self, out: &mut Vec<Notice>) -> (c: Command)
        requires
            old(self).holds(old(out)@),
        ensures
            forall|i: int| 0 <= i < old(out)@.len() ==> final(out)@[i] == old(out)@[i],
            forall|i: int|
                old(out)@.len() <= i < final(out)@.len() ==> !(#[trigger] final(out)@[i] is CaptchaRequired),
            old(out)@.len() <= final(out)@.len(),
            final(self).holds(final(out)@),
            final(self).view_with(final(out)@) == wrap_up(old(self).view_with(old(out)@)),
            final(self).batch_id == old(self).batch_id,
            final(self).config == old(self).config,
            final(self).invoices == old(self).invoices,
            final(self).results == old(self).results,
            final(self).ending == old(self).ending,
            final(self).captcha_image == old(self).captcha_image,
            final(self).trace == old(self).trace,
            ends_with_summary(
                final(out)@,
                final(self).success_count as nat,
                final(self).failed_count as nat,
                final(self).invoices@.len(),
            ),
            final(out)@.len() == old(out)@.len() + 2,
            c is Finish,
    {
        let total = self.invoices.len() as u32;
        let percentage = progress_percentage(total, total);
        let n = Notice::Progress(
            ProgressEvent { batch_id: self.batch_id.clone(), current: total, total, percentage },
        );
        proof {
            self.lemma_view_with_push(out@, n);
            self.lemma_holds_push(out@, n);
        }
        out.push(n);
        let mut msg = String::from_str("Batch complete: ");
        msg.append(decimal(self.success_count).as_str());
        msg.append("/");
        msg.append(decimal(total).as_str());
        msg.append(" successful, ");
        msg.append(decimal(self.failed_count).as_str());
        msg.append("/");
        msg.append(decimal(total).as_str());
        msg.append(" failed");
        let n2 = Notice::Log(LogLevel::Info, msg);
        proof {
            self.lemma_view_with_push(out@, n2);
            self.lemma_holds_push(out@, n2);
        }
        out.push(n2);
        self.stage = Stage::Finished;
        Command::Finish
    }

    fn end_task_exec(&mut self, out: &Vec<Notice>, kind: Ending, ending: Result<String, AppError>) -> (c: Command)
        requires
            old(self).holds(out@),
            0 < old(self).next,
            ending_fits(
                Some(kind),
                Some(ending),
                pdf_path(
                    old(self).config.download_directory@,
                    old(self).invoices@[old(self).next - 1].code@,
                ),
            ),
        ensures
            final(self).holds(out@),
            final(self).view_with(out@) == end_task(old(self).view_with(out@), kind),
            final(self).frame(old(self)),
            final(self).results == old(self).results,
            final(self).ending == Some(ending),
            c is CloseSession,
    {
        self.stage = Stage::Closing;
        self.ending = Some(ending);
        self.ending_kind = Some(kind);
        Command::CloseSession
    }

    fn checkpoint_exec(&mut self, out: &mut Vec<Notice>, cancelled: bool) -> (c: Command)
        requires
            old(self).holds(old(out)@),
            old(self).results@.len() == old(self).next,
            (old(self).ending_kind is None),
        ensures
            forall|i: int| 0 <= i < old(out)@.len() ==> final(out)@[i] == old(out)@[i],
            forall|i: int|
                old(out)@.len() <= i < final(out)@.len() ==> !(#[trigger] final(out)@[i] is CaptchaRequired),
            old(out)@.len() <= final(out)@.len(),
            final(self).holds(final(out)@),
            final(self).view_with(final(out)@) == checkpoint(
                old(self).view_with(old(out)@),
                cancelled,
            ),
            final(self).frame(old(self)),
            final(self).results == old(self).results,
            final(self).ending is None,
            final(self).stage == Stage::Finished ==> c is Finish,
            final(self).stage == Stage::Finished ==> ends_with_summary(
                final(out)@,
                final(self).success_count as nat,
                final(self).failed_count as nat,
                final(self).invoices@.len(),
            ),
            final(self).stage == Stage::Finished && final(self).next < final(self).invoices@.len()
                ==> cancelled_before_close(final(out)@),
            final(self).stage == Stage::Opening ==> c == (Command::OpenSession {
                headless: final(self).config.headless,
            }),
    {
        if self.next >= self.invoices.len() {
            return self.wrap_up_exec(out);
        }
        if cancelled {
            let n = Notice::Log(LogLevel::Warn, String::from_str("Download batch cancelled by user"));
            proof {
                self.lemma_view_with_push(out@, n);
                self.lemma_holds_push(out@, n);
            }
            out.push(n);
            return self.wrap_up_exec(out);
        }
        let j = self.next;
        let total = self.invoices.len() as u32;
        let current = (j + 1) as u32;
        let percentage = progress_percentage(current, total);
        let n1 = Notice::Progress(
            ProgressEvent { batch_id: self.batch_id.clone(), current, total, percentage },
        );
        proof {
            self.lemma_view_with_push(out@, n1);
            self.lemma_holds_push(out@, n1);
        }
        out.push(n1);
        let n2 = Notice::Started(
            j,
            InvoiceStatusEvent {
                batch_id: self.batch_id.clone(),
                invoice_id: self.invoices[j].id.clone(),
                status: String::from_str("downloading"),
                error: None,
                file_path: None,
            },
        );
        proof {
            self.lemma_view_with_push(out@, n2);
            self.lemma_holds_push(out@, n2);
        }
        out.push(n2);
        let mut msg = String::from_str("[");
        msg.append(decimal(current).as_str());
        msg.append("/");
        msg.append(decimal(total).as_str());
        msg.append("] Downloading: ");
        msg.append(self.invoices[j].code.as_str());
        let n3 = Notice::Log(LogLevel::Info, msg);
        proof {
            self.lemma_view_with_push(out@, n3);
            self.lemma_holds_push(out@, n3);
        }
        out.push(n3);
        self.next = j + 1;
        self.stage = Stage::Opening;
        self.attempt = 0;
        self.alerts = 0;
        self.ending = None;
        self.ending_kind = None;
        Command::OpenSession { headless: self.config.headless }
    }

    fn start_attempt_exec(&mut self, out: &mut Vec<Notice>, cancelled: bool) -> (c: Command)
        requires
            old(self).holds(old(out)@),
            0 < old(self).next,
            old(self).attempt < MAX_RETRIES,
        ensures
            forall|i: int| 0 <= i < old(out)@.len() ==> final(out)@[i] == old(out)@[i],
            forall|i: int|
                old(out)@.len() <= i < final(out)@.len() ==> !(#[trigger] final(out)@[i] is CaptchaRequired),
            old(out)@.len() <= final(out)@.len(),
            final(self).holds(final(out)@),
            final(self).view_with(final(out)@) == start_attempt(
                old(self).view_with(old(out)@),
                cancelled,
            ),
            final(self).frame(old(self)),
            final(self).results == old(self).results,
            final(self).stage == Stage::Navigating ==> c == Command::Navigate(
                final(self).config.vnpt_url,
            ),
            final(self).stage == Stage::Closing ==> c is CloseSession,
    {
        if cancelled {
            return self.end_task_exec(
                out,
                Ending::Cancelled,
                Err(AppError::DownloadFailed(String::from_str("Download cancelled"))),
            );
        }
        self.attempt = self.attempt + 1;
        let j = self.next - 1;
        let mut msg = String::from_str("Attempt ");
        msg.append(decimal(self.attempt).as_str());
        msg.append("/");
        msg.append(decimal(MAX_RETRIES).as_str());
        msg.append(" for invoice ");
        msg.append(self.invoices[j].code.as_str());
        let n = Notice::Log(LogLevel::Info, msg);
        proof {
            self.lemma_view_with_push(out@, n);
            self.lemma_holds_push(out@, n);
        }
        out.push(n);
        self.stage = Stage::Navigating;
        Command::Navigate(self.config.vnpt_url.clone())
    }

    fn retry_exec(&mut self, out: &mut Vec<Notice>, cancelled: bool) -> (c: Command)
        requires
            old(self).holds(old(out)@),
            0 < old(self).next,
        ensures
            forall|i: int| 0 <= i < old(out)@.len() ==> final(out)@[i] == old(out)@[i],
            forall|i: int|
                old(out)@.len() <= i < final(out)@.len() ==> !(#[trigger] final(out)@[i] is CaptchaRequired),
            old(out)@.len() <= final(out)@.len(),
            final(self).holds(final(out)@),
            final(self).view_with(final(out)@) == retry(old(self).view_with(old(out)@), cancelled),
            final(self).frame(old(self)),
            final(self).results == old(self).results,
            final(self).stage == Stage::Navigating ==> c == Command::Navigate(
                final(self).config.vnpt_url,
            ),
            final(self).stage == Stage::Closing ==> c is CloseSession,
    {
        if self.attempt < MAX_RETRIES {
            self.start_attempt_exec(out, cancelled)
        } else {
            self.end_task_exec(out, Ending::Exhausted, Err(AppError::CaptchaFailed(MAX_RETRIES)))
        }
    }

    fn settle_exec(&mut self, out: &mut Vec<Notice>, cancelled: bool) -> (c: Command)
        requires
            old(self).holds(old(out)@),
            old(self).ending_kind is Some,
            old(self).results@.len() + 1 == old(self).next,
        ensures
            forall|i: int| 0 <= i < old(out)@.len() ==> final(out)@[i] == old(out)@[i],
            forall|i: int|
                old(out)@.len() <= i < final(out)@.len() ==> !(#[trigger] final(out)@[i] is CaptchaRequired),
            old(out)@.len() <= final(out)@.len(),
            final(self).holds(final(out)@),
            final(self).view_with(final(out)@) == settle(old(self).view_with(old(out)@), cancelled),
            final(self).frame(old(self)),
            final(self).results@.len() == old(self).results@.len() + 1,
            final(self).results@.drop_last() == old(self).results@,
            records_ending(
                final(self).results@.last(),
                old(self).invoices@[old(self).next - 1],
                old(self).ending->Some_0,
            ),
            final(self).stage == Stage::Pausing ==> c == (Command::Pause { seconds: PAUSE_SECONDS }),
            final(self).stage == Stage::Finished ==> (c is Finish),
            final(self).stage == Stage::Finished ==> ends_with_summary(
                final(out)@,
                final(self).success_count as nat,
                final(self).failed_count as nat,
                final(self).invoices@.len(),
            ),
            final(self).stage == Stage::Finished && final(self).next < final(self).invoices@.len()
                ==> cancelled_before_close(final(out)@),
            final(self).stage == Stage::Opening ==> c == (Command::OpenSession {
                headless: final(self).config.headless,
            }),
    {
        let ghost o = *self;
        let ghost pend = out@;
        let j = self.next - 1;
        let ok = match &self.ending {
            Some(Ok(_)) => true,
            _ => false,
        };
        assert(o.ending_kind == Some(Ending::Saved) ==> (o.ending matches Some(Ok(_))));
        assert(o.ending_kind != Some(Ending::Saved) ==> (o.ending matches Some(Err(_)))) by {
            match o.ending_kind {
                Some(Ending::Cancelled) => {},
                Some(Ending::Exhausted) => {},
                _ => {},
            }
        }
        assert(ok <==> o.ending_kind == Some(Ending::Saved));
        let (error, file_path): (Option<String>, Option<String>) = match &self.ending {
            Some(Ok(p)) => (None, Some(p.clone())),
            Some(Err(e)) => (Some(e.message()), None),
            None => (None, None),
        };
        let status = if ok {
            String::from_str("success")
        } else {
            String::from_str("failed")
        };
        proof {
            reveal_strlit("success");
            reveal_strlit("failed");
            assert("success"@.len() == 7);
            assert("failed"@.len() == 6);
            assert(status@ == "success"@ <==> ok);
        }
        let record = InvoiceResult {
            invoice_id: self.invoices[j].id.clone(),
            code: self.invoices[j].code.clone(),
            status: status.clone(),
            error: copy_text(&error),
            file_path: copy_text(&file_path),
        };
        let event = InvoiceStatusEvent {
            batch_id: self.batch_id.clone(),
            invoice_id: self.invoices[j].id.clone(),
            status,
            error,
            file_path,
        };
        proof {
            reveal_strlit("success");
            reveal_strlit("failed");
            lemma_fits_grow(self.trace@ + pend, self.batch_id, self.invoices@, self.results@, record);
        }
        self.results.push(record);
        if ok {
            self.success_count = self.success_count + 1;
        } else {
            self.failed_count = self.failed_count + 1;
        }
        self.ending = None;
        self.ending_kind = None;
        let n = Notice::Settled(j, event);
        proof {
            assert(self.results@.last().status@ == "success"@ <==> ok);
            assert(self.results@.map_values(|r: InvoiceResult| r.status@ == "success"@) =~= o.results@.map_values(
                |r: InvoiceResult| r.status@ == "success"@,
            ).push(ok));
            assert(self.results@.drop_last() =~= o.results@);
            assert(ok ==> (o.ending matches Some(Ok(p)) && p@ == pdf_path(
                self.config.download_directory@,
                self.invoices@[j as int].code@,
            )));
            assert(ok ==> self.results@.last().file_path == Some(o.ending->Some_0->Ok_0));
            assert(record_fits(self.results@.last(), self.invoices@[j as int], self.config));
            assert(forall|k: int| 0 <= k < o.results@.len() ==> self.results@[k] == o.results@[k]);
            self.lemma_view_with_push(out@, n);
            self.lemma_holds_push(out@, n);
        }
        out.push(n);
        if !cancelled && self.next < self.invoices.len() {
            self.stage = Stage::Pausing;
            Command::Pause { seconds: PAUSE_SECONDS }
        } else {
            self.checkpoint_exec(out, cancelled)
        }
    }

    fn log_line(&self, out: &mut Vec<Notice>, level: LogLevel, message: String)
        requires
            self.holds(old(out)@),
        ensures
            forall|i: int| 0 <= i < old(out)@.len() ==> final(out)@[i] == old(out)@[i],
            forall|i: int|
                old(out)@.len() <= i < final(out)@.len() ==> !(#[trigger] final(out)@[i] is CaptchaRequired),
            old(out)@.len() <= final(out)@.len(),
            final(out)@ == old(out)@.push(Notice::Log(level, message)),
            self.holds(final(out)@),
            self.view_with(final(out)@) == logged(self.view_with(old(out)@)),
    {
        let n = Notice::Log(level, message);
        proof {
            self.lemma_view_with_push(out@, n);
            self.lemma_holds_push(out@, n);
        }
        out.push(n);
    }

    /// Takes the report of the last command, with what the cancellation flag
    /// reads now, and moves the batch on by its rules: hands back the events
    /// to emit, in order, and the next command. The view moves exactly by
    /// `next_view`, so the laws of `policy`, stated over `run` and `view_inv`,
    /// hold of every sequence of calls that starts from `new`.
    #[verifier::rlimit(100)]
    pub fn step(&mut self, report: Report, cancelled: bool) -> (r: Step)
        requires
            old(self).wf(),
            answers(old(self)@.stage, report),
            report matches Report::Captured(Ok(img)) ==> img@.len() <= isize::MAX / 2,
        ensures
            final(self).wf(),
            final(self)@ == next_view(old(self)@, report, cancelled),
            final(self).trace_view() == old(self).trace_view() + r.notices@,
            final(self).batch_id_view() == old(self).batch_id_view(),
            final(self).config_view() == old(self).config_view(),
            final(self).invoices_view() == old(self).invoices_view(),
            command_fits(
                r.command,
                final(self)@.stage,
                final(self).config_view(),
                final(self).invoices_view()[final(self)@.next - 1].code@,
            ),
            r.command matches Command::FillCaptcha(t) ==> (report matches Report::Solved(Ok(t0))
                && t == t0),
            r.command matches Command::Save { bytes, .. } ==> (report matches Report::Downloaded(
                Ok(b),
            ) && bytes == b),
            forall|i: int|
                0 <= i < r.notices@.len() ==> (#[trigger] r.notices@[i] matches Notice::CaptchaRequired(
                    _,
                    e,
                ) ==> e.image_base64@ == base64_of(final(self).captcha_view())),
            old(self).results_view().len() <= final(self).results_view().len(),
            final(self).results_view().subrange(0, old(self).results_view().len() as int)
                == old(self).results_view(),
            old(self)@.stage == Stage::Closing ==> records_ending(
                final(self).results_view()[old(self).results_view().len() as int],
                old(self).invoices_view()[old(self)@.next - 1],
                old(self).ending_view()->Some_0,
            ),
            report matches Report::Opened(Err(e)) ==> records_ending(
                final(self).results_view()[old(self).results_view().len() as int],
                old(self).invoices_view()[old(self)@.next - 1],
                Err(e),
            ),
            report matches Report::Captured(Ok(img)) ==> final(self).captcha_view() == img@,
            !(report matches Report::Captured(Ok(_))) ==> final(self).captcha_view() == old(
                self,
            ).captcha_view(),
            final(self)@.stage == Stage::Finished ==> ends_with_summary(
                r.notices@,
                final(self)@.success,
                final(self)@.failed,
                final(self)@.total,
            ),
            final(self)@.stage == Stage::Finished && final(self)@.next < final(self)@.total
                ==> cancelled_before_close(r.notices@),
            ending_fits(
                final(self)@.ending,
                final(self).ending_view(),
                pdf_path(
                    final(self).config_view().download_directory@,
                    final(self).invoices_view()[final(self)@.next - 1].code@,
                ),
            ),
    {
        let ghost o = *self;
        let mut out: Vec<Notice> = Vec::new();
        proof {
            assert(self.trace@ + out@ =~= self.trace@ + seq![]);
        }
        let command = match self.stage {
            Stage::Ready => self.checkpoint_exec(&mut out, cancelled),
            Stage::Pausing => self.checkpoint_exec(&mut out, cancelled),
            Stage::Opening => match report {
                Report::Opened(Ok(())) => self.start_attempt_exec(&mut out, cancelled),
                Report::Opened(Err(e)) => {
                    self.end_task_exec(&out, Ending::Fault, Err(e));
                    self.settle_exec(&mut out, cancelled)
                },
                _ => Command::Finish,
            },
            Stage::Navigating => match report {
                Report::Navigated(Ok(())) => {
                    self.stage = Stage::FillingCode;
                    Command::FillCode(self.invoices[self.next - 1].code.clone())
                },
                Report::Navigated(Err(e)) => {
                    let msg = joined_text("Attempt failed: ", e.message().as_str());
                    self.log_line(&mut out, LogLevel::Warn, msg);
                    self.retry_exec(&mut out, cancelled)
                },
                _ => Command::Finish,
            },
            Stage::FillingCode => match report {
                Report::CodeFilled(Ok(())) => {
                    self.stage = Stage::Capturing;
                    Command::CaptureCaptcha
                },
                Report::CodeFilled(Err(e)) => {
                    let msg = joined_text("Attempt failed: ", e.message().as_str());
                    self.log_line(&mut out, LogLevel::Warn, msg);
                    self.retry_exec(&mut out, cancelled)
                },
                _ => Command::Finish,
            },
            Stage::Capturing => match report {
                Report::Captured(Ok(image)) => {
                    self.captcha_image = image;
                    self.stage = Stage::Solving;
                    Command::Solve
                },
                Report::Captured(Err(e)) => {
                    let msg = joined_text("Attempt failed: ", e.message().as_str());
                    self.log_line(&mut out, LogLevel::Warn, msg);
                    self.retry_exec(&mut out, cancelled)
                },
                _ => Command::Finish,
            },
            Stage::Solving => match report {
                Report::Solved(Ok(text)) => {
                    let msg = joined_text("Captcha solved: ", text.as_str());
                    self.log_line(&mut out, LogLevel::Info, msg);
                    self.stage = Stage::FillingCaptcha;
                    Command::FillCaptcha(text)
                },
                Report::Solved(Err(e)) => {
                    let msg = joined_text("Captcha solving failed: ", e.message().as_str());
                    self.log_line(&mut out, LogLevel::Warn, msg);
                    if self.attempt == MAX_RETRIES {
                        let j = self.next - 1;
                        let image_base64 = encode_base64(&self.captcha_image);
                        let n = Notice::CaptchaRequired(
                            j,
                            CaptchaRequiredEvent {
                                batch_id: self.batch_id.clone(),
                                invoice_id: self.invoices[j].id.clone(),
                                invoice_code: self.invoices[j].code.clone(),
                                image_base64,
                            },
                        );
                        proof {
                            self.lemma_view_with_push(out@, n);
                            self.lemma_holds_push(out@, n);
                        }
                        out.push(n);
                        self.alerts = self.alerts + 1;
                    }
                    self.retry_exec(&mut out, cancelled)
                },
                _ => Command::Finish,
            },
            Stage::FillingCaptcha => match report {
                Report::CaptchaFilled(Ok(())) => {
                    self.stage = Stage::Submitting;
                    Command::Submit
                },
                Report::CaptchaFilled(Err(e)) => {
                    let msg = joined_text("Attempt failed: ", e.message().as_str());
                    self.log_line(&mut out, LogLevel::Warn, msg);
                    self.retry_exec(&mut out, cancelled)
                },
                _ => Command::Finish,
            },
            Stage::Submitting => match report {
                Report::Submitted(Ok(())) => {
                    self.stage = Stage::Verifying;
                    Command::ReadBanner
                },
                Report::Submitted(Err(e)) => {
                    let msg = joined_text("Attempt failed: ", e.message().as_str());
                    self.log_line(&mut out, LogLevel::Warn, msg);
                    self.retry_exec(&mut out, cancelled)
                },
                _ => Command::Finish,
            },
            Stage::Verifying => match report {
                Report::Banner(Some(text)) => {
                    let rejected = is_captcha_rejection(text.as_str());
                    let msg = joined_text("Page error: ", text.as_str());
                    self.log_line(&mut out, LogLevel::Warn, msg);
                    if rejected {
                        self.retry_exec(&mut out, cancelled)
                    } else {
                        self.stage = Stage::Downloading;
                        Command::Download(self.config.vnpt_url.clone())
                    }
                },
                Report::Banner(None) => {
                    self.stage = Stage::Downloading;
                    Command::Download(self.config.vnpt_url.clone())
                },
                _ => Command::Finish,
            },
            Stage::Downloading => match report {
                Report::Downloaded(Ok(bytes)) => {
                    if bytes.len() > 0 {
                        self.stage = Stage::Saving;
                        let code = &self.invoices[self.next - 1].code;
                        let path = invoice_pdf_path(
                            self.config.download_directory.as_str(),
                            code.as_str(),
                        );
                        Command::Save {
                            directory: self.config.download_directory.clone(),
                            path,
                            bytes,
                        }
                    } else {
                        let empty = AppError::DownloadFailed(String::from_str("Empty PDF received"));
                        let msg = joined_text("Download failed: ", empty.message().as_str());
                        self.log_line(&mut out, LogLevel::Warn, msg);
                        self.retry_exec(&mut out, cancelled)
                    }
                },
                Report::Downloaded(Err(e)) => {
                    let msg = joined_text("Download failed: ", e.message().as_str());
                    self.log_line(&mut out, LogLevel::Warn, msg);
                    self.retry_exec(&mut out, cancelled)
                },
                _ => Command::Finish,
            },
            Stage::Saving => match report {
                Report::Saved(Ok(())) => {
                    let code = &self.invoices[self.next - 1].code;
                    let path = invoice_pdf_path(
                        self.config.download_directory.as_str(),
                        code.as_str(),
                    );
                    let msg = joined_text("Downloaded: ", path.as_str());
                    self.log_line(&mut out, LogLevel::Info, msg);
                    self.end_task_exec(&out, Ending::Saved, Ok(path))
                },
                Report::Saved(Err(e)) => {
                    let msg = joined_text("Download failed: ", e.message().as_str());
                    self.log_line(&mut out, LogLevel::Warn, msg);
                    self.retry_exec(&mut out, cancelled)
                },
                _ => Command::Finish,
            },
            Stage::Closing => self.settle_exec(&mut out, cancelled),
            Stage::Finished => Command::Finish,
        };
        proof {
            assert((self.trace@ + out@) + seq![] =~= self.trace@ + out@);
            lemma_next_keeps_inv(o@, report, cancelled);
        }
        self.trace = Ghost(self.trace@ + out@);
        assert(self.holds(seq![]));
        Step { notices: out, command }
    }

    /// What holds of every state of a well-formed batch.
    pub proof fn lemma_wf_view(&self)
        requires
            self.wf(),
        ensures
            view_inv(self@),
            self@.total == self.invoices_view().len(),
            self@.outcomes == self.results_view().map_values(
                |r: InvoiceResult| r.status@ == "success"@,
            ),
            self@.success == successes(self@.outcomes),
            self@.failed == self@.outcomes.len() - successes(self@.outcomes),
            self.results_view().len() == self@.outcomes.len(),
            forall|j: int|
                0 <= j < self.results_view().len() ==> record_fits(
                    #[trigger] self.results_view()[j],
                    self.invoices_view()[j],
                    self.config_view(),
                ),
            forall|i: int|
                0 <= i < self.trace_view().len() ==> notice_fits(
                    #[trigger] self.trace_view()[i],
                    self.batch_id_view(),
                    self.invoices_view(),
                    self.results_view(),
                ),
            self@.marks == marks_of(self.trace_view()),
    {
        assert(self.trace@ + seq![] =~= self.trace@);
    }

    /// Whether the batch is over.
    pub fn is_finished(&self) -> (r: bool)
        ensures
            r == (self@.stage == Stage::Finished),
    {
        match self.stage {
            Stage::Finished => true,
            _ => false,
        }
    }

    /// The result of the batch: its identifier, its size, the counts of
    /// successes and failures, and one record per invoice with an outcome.
    pub fn into_result(self) -> (r: BatchResult)
        requires
            self.wf(),
        ensures
            r.batch_id == self.batch_id_view(),
            r.total == self@.total,
            r.total == self.invoices_view().len(),
            r.success_count == self@.success,
            r.failed_count == self@.failed,
            r.results@ == self.results_view(),
            r.success_count + r.failed_count == r.results@.len(),
    {
        BatchResult {
            batch_id: self.batch_id,
            total: self.invoices.len() as u32,
            success_count: self.success_count,
            failed_count: self.failed_count,
            results: self.results,
        }
    }

    /// With pairwise distinct invoice identifiers, each invoice gets at most
    /// one final status event and at most one outcome record.
    pub proof fn lemma_one_outcome_per_invoice(&self)
        requires
            self.wf(),
            forall|a: int, b: int|
                0 <= a < b < self.invoices_view().len() ==> self.invoices_view()[a].id
                    != self.invoices_view()[b].id,
        ensures
            forall|a: int, b: int|
                0 <= a < b < self.trace_view().len() && self.trace_view()[a] is Settled
                    && self.trace_view()[b] is Settled ==> self.trace_view()[a]->Settled_1.invoice_id
                    != self.trace_view()[b]->Settled_1.invoice_id,
            forall|a: int, b: int|
                0 <= a < b < self.results_view().len() ==> self.results_view()[a].invoice_id
                    != self.results_view()[b].invoice_id,
    {
        self.lemma_wf_view();
        let ns = self.trace@;
        let k = self.results@.len();
        assert(picks(marks_of(ns), MarkKind::Settled) == crate::policy::positions(k));
        lemma_settled_distinct(ns);
        assert forall|a: int, b: int|
            0 <= a < b < ns.len() && ns[a] is Settled && ns[b] is Settled implies ns[a]->Settled_1.invoice_id
                != ns[b]->Settled_1.invoice_id by {
            assert(notice_fits(ns[a], self.batch_id, self.invoices@, self.results@));
            assert(notice_fits(ns[b], self.batch_id, self.invoices@, self.results@));
            let ja = ns[a]->Settled_0 as int;
            let jb = ns[b]->Settled_0 as int;
            assert(record_fits(self.results@[ja], self.invoices@[ja], self.config));
            assert(record_fits(self.results@[jb], self.invoices@[jb], self.config));
        }
        assert forall|a: int, b: int| 0 <= a < b < self.results@.len() implies self.results@[a].invoice_id
            != self.results@[b].invoice_id by {
            assert(record_fits(self.results@[a], self.invoices@[a], self.config));
            assert(record_fits(self.results@[b], self.invoices@[b], self.config));
        }
    }
}

} // verus!
