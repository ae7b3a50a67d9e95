//! The rules of a batch, stated over an abstract view of its state: how each
//! report moves the batch on, which events that emits, and the laws that
//! hold of every run.
use vstd::prelude::*;
use crate::portal::rejects_captcha;
use crate::session::Report;

verus! {

/// Attempts made at one invoice before it is given up.
pub const MAX_RETRIES: u32 = 3;

/// Where a batch stands.
#[derive(PartialEq, Eq, Structural, Clone, Copy, Debug)]
pub enum Stage {
    /// Not started yet.
    Ready,
    Opening,
    Navigating,
    FillingCode,
    Capturing,
    Solving,
    FillingCaptcha,
    Submitting,
    Verifying,
    Downloading,
    Saving,
    /// The invoice has its outcome; its session is being closed.
    Closing,
    /// Waiting between two invoices.
    Pausing,
    Finished,
}

/// How the invoice in hand ended.
#[derive(PartialEq, Eq, Structural, Clone, Copy, Debug)]
pub enum Ending {
    /// Its PDF was saved.
    Saved,
    /// The batch was cancelled at the top of an attempt.
    Cancelled,
    /// Every attempt was used up.
    Exhausted,
    /// The browser session could not be opened.
    Fault,
}

/// An emitted event, as far as the rules care.
pub enum Mark {
    /// A progress event `(current, total)`.
    Progress(nat, nat),
    /// The status `downloading` for the invoice at this position.
    Started(nat),
    /// A captcha handed out for the invoice at this position.
    Alert(nat),
    /// The final status of the invoice at this position.
    Settled(nat),
    /// A log line.
    Log,
}

/// The state of a batch, as far as the rules care.
pub struct RunView {
    pub stage: Stage,
    pub total: nat,
    /// Invoices begun so far.
    pub next: nat,
    /// Ordinal of the attempt in progress for the invoice in hand.
    pub attempt: nat,
    /// Captchas handed out for the invoice in hand.
    pub alerts: nat,
    pub ending: Option<Ending>,
    pub success: nat,
    pub failed: nat,
    /// For each invoice with an outcome, in order: whether it succeeded.
    pub outcomes: Seq<bool>,
    /// Every event emitted so far, in order.
    pub marks: Seq<Mark>,
}

/// The stages during which an invoice is in hand.
pub open spec fn in_task(s: Stage) -> bool {
    !(s == Stage::Ready || s == Stage::Pausing || s == Stage::Finished)
}

/// The view of a batch of `total` invoices that has not started.
pub open spec fn initial_view(total: nat) -> RunView {
    RunView {
        stage: Stage::Ready,
        total,
        next: 0,
        attempt: 0,
        alerts: 0,
        ending: None,
        success: 0,
        failed: 0,
        outcomes: seq![],
        marks: seq![],
    }
}

/// Whether a report tells of a step that went through.
pub open spec fn went_through(r: Report) -> bool {
    match r {
        Report::Opened(x) => x is Ok,
        Report::Navigated(x) => x is Ok,
        Report::CodeFilled(x) => x is Ok,
        Report::Captured(x) => x is Ok,
        Report::Solved(x) => x is Ok,
        Report::CaptchaFilled(x) => x is Ok,
        Report::Submitted(x) => x is Ok,
        Report::Downloaded(x) => x matches Ok(b) && b@.len() > 0,
        Report::Saved(x) => x is Ok,
        _ => false,
    }
}

/// The report that answers the command of each stage.
pub open spec fn answers(s: Stage, r: Report) -> bool {
    match s {
        Stage::Ready => r is Ready,
        Stage::Opening => r is Opened,
        Stage::Navigating => r is Navigated,
        Stage::FillingCode => r is CodeFilled,
        Stage::Capturing => r is Captured,
        Stage::Solving => r is Solved,
        Stage::FillingCaptcha => r is CaptchaFilled,
        Stage::Submitting => r is Submitted,
        Stage::Verifying => r is Banner,
        Stage::Downloading => r is Downloaded,
        Stage::Saving => r is Saved,
        Stage::Closing => r is Closed,
        Stage::Pausing => r is Ready,
        Stage::Finished => false,
    }
}

/// A log line is emitted.
pub open spec fn logged(v: RunView) -> RunView {
    RunView { marks: v.marks.push(Mark::Log), ..v }
}

/// Closing the batch: a last progress event at `(total, total)` and the summary line.
pub open spec fn wrap_up(v: RunView) -> RunView {
    RunView {
        stage: Stage::Finished,
        marks: v.marks.push(Mark::Progress(v.total, v.total)).push(Mark::Log),
        ..v
    }
}

/// The check before each invoice: stop when none is left, or, with a log
/// line, when the batch is cancelled; else begin the next invoice with its
/// progress event, its `downloading` status and a log line.
pub open spec fn checkpoint(v: RunView, cancelled: bool) -> RunView {
    if v.next >= v.total {
        wrap_up(v)
    } else if cancelled {
        wrap_up(logged(v))
    } else {
        RunView {
            stage: Stage::Opening,
            next: v.next + 1,
            attempt: 0,
            alerts: 0,
            ending: None,
            marks: v.marks.push(Mark::Progress(v.next + 1, v.total)).push(
                Mark::Started(v.next),
            ).push(Mark::Log),
            ..v
        }
    }
}

/// The invoice in hand has its outcome; its session is to be closed.
pub open spec fn end_task(v: RunView, e: Ending) -> RunView {
    RunView { stage: Stage::Closing, ending: Some(e), ..v }
}

/// The top of the next attempt: give up when cancelled, else log it and load
/// the portal.
pub open spec fn start_attempt(v: RunView, cancelled: bool) -> RunView {
    if cancelled {
        end_task(v, Ending::Cancelled)
    } else {
        RunView { stage: Stage::Navigating, attempt: v.attempt + 1, marks: v.marks.push(Mark::Log), ..v }
    }
}

/// The attempt failed in a way that may pass on another try.
pub open spec fn retry(v: RunView, cancelled: bool) -> RunView {
    if v.attempt < MAX_RETRIES {
        start_attempt(v, cancelled)
    } else {
        end_task(v, Ending::Exhausted)
    }
}

/// The solver failed: a log line, and on the last attempt the captcha is
/// handed out.
pub open spec fn unsolved(v: RunView) -> RunView {
    if v.attempt == MAX_RETRIES {
        RunView {
            alerts: v.alerts + 1,
            marks: v.marks.push(Mark::Log).push(Mark::Alert((v.next - 1) as nat)),
            ..v
        }
    } else {
        logged(v)
    }
}

/// The invoice's session is closed: count its outcome, emit its final status,
/// then pause before the next invoice, or go straight to the check when the
/// batch is cancelled or no invoice is left.
pub open spec fn settle(v: RunView, cancelled: bool) -> RunView {
    let ok = v.ending == Some(Ending::Saved);
    let w = RunView {
        success: if ok { v.success + 1 } else { v.success },
        failed: if ok { v.failed } else { v.failed + 1 },
        outcomes: v.outcomes.push(ok),
        ending: None,
        marks: v.marks.push(Mark::Settled((v.next - 1) as nat)),
        ..v
    };
    if !cancelled && w.next < w.total {
        RunView { stage: Stage::Pausing, ..w }
    } else {
        checkpoint(w, cancelled)
    }
}

/// Go on to stage `s` when the browser step went through; else, with a log
/// line, the attempt failed in a way that may pass on another try.
pub open spec fn advance(v: RunView, r: Report, s: Stage, cancelled: bool) -> RunView {
    if went_through(r) {
        RunView { stage: s, ..v }
    } else {
        retry(logged(v), cancelled)
    }
}

/// How a report moves the batch on; `cancelled` is what the cancellation
/// flag read when the report came.
pub open spec fn next_view(v: RunView, r: Report, cancelled: bool) -> RunView {
    match v.stage {
        Stage::Ready => checkpoint(v, cancelled),
        Stage::Pausing => checkpoint(v, cancelled),
        Stage::Opening => if went_through(r) {
            start_attempt(v, cancelled)
        } else {
            settle(end_task(v, Ending::Fault), cancelled)
        },
        Stage::Navigating => advance(v, r, Stage::FillingCode, cancelled),
        Stage::FillingCode => advance(v, r, Stage::Capturing, cancelled),
        Stage::Capturing => advance(v, r, Stage::Solving, cancelled),
        Stage::Solving => if went_through(r) {
            RunView { stage: Stage::FillingCaptcha, ..logged(v) }
        } else {
            retry(unsolved(v), cancelled)
        },
        Stage::FillingCaptcha => advance(v, r, Stage::Submitting, cancelled),
        Stage::Submitting => advance(v, r, Stage::Verifying, cancelled),
        Stage::Verifying => match r {
            Report::Banner(Some(t)) => if rejects_captcha(t@) {
                retry(logged(v), cancelled)
            } else {
                RunView { stage: Stage::Downloading, ..logged(v) }
            },
            _ => RunView { stage: Stage::Downloading, ..v },
        },
        Stage::Downloading => if went_through(r) {
            RunView { stage: Stage::Saving, ..v }
        } else {
            retry(logged(v), cancelled)
        },
        Stage::Saving => if went_through(r) {
            end_task(logged(v), Ending::Saved)
        } else {
            retry(logged(v), cancelled)
        },
        Stage::Closing => settle(v, cancelled),
        Stage::Finished => v,
    }
}

/// Which events a listing picks out.
pub enum MarkKind {
    /// The `current` of progress events.
    Progress,
    Started,
    Alert,
    Settled,
}

/// The number that a listing of kind `k` takes from `m`, if any.
pub open spec fn pick(m: Mark, k: MarkKind) -> Seq<nat> {
    match (m, k) {
        (Mark::Progress(c, _), MarkKind::Progress) => seq![c],
        (Mark::Started(j), MarkKind::Started) => seq![j],
        (Mark::Alert(j), MarkKind::Alert) => seq![j],
        (Mark::Settled(j), MarkKind::Settled) => seq![j],
        _ => seq![],
    }
}

/// The numbers that events of kind `k` carry, in the order they were emitted.
pub open spec fn picks(marks: Seq<Mark>, k: MarkKind) -> Seq<nat>
    decreases marks.len(),
{
    if marks.len() == 0 {
        seq![]
    } else {
        picks(marks.drop_last(), k) + pick(marks.last(), k)
    }
}

pub broadcast proof fn lemma_picks_push(marks: Seq<Mark>, m: Mark, k: MarkKind)
    ensures
        #[trigger] picks(marks.push(m), k) == picks(marks, k) + pick(m, k),
{
    assert(marks.push(m).drop_last() =~= marks);
}

/// `0, 1, ..., n - 1`.
pub open spec fn positions(n: nat) -> Seq<nat> {
    Seq::new(n, |i: int| i as nat)
}

/// `1, 2, ..., n`.
pub open spec fn ordinals(n: nat) -> Seq<nat> {
    Seq::new(n, |i: int| (i + 1) as nat)
}

/// How many of `outcomes` are successes.
pub open spec fn successes(outcomes: Seq<bool>) -> nat
    decreases outcomes.len(),
{
    if outcomes.len() == 0 {
        0
    } else {
        successes(outcomes.drop_last()) + if outcomes.last() {
            1nat
        } else {
            0nat
        }
    }
}

proof fn lemma_successes_push(outcomes: Seq<bool>, ok: bool)
    ensures
        successes(outcomes.push(ok)) == successes(outcomes) + if ok {
            1nat
        } else {
            0nat
        },
{
    assert(outcomes.push(ok).drop_last() =~= outcomes);
}

/// What holds of every state that a batch reaches.
pub open spec fn view_inv(v: RunView) -> bool {
    &&& v.next <= v.total
    &&& v.outcomes.len() + (if in_task(v.stage) { 1int } else { 0int }) == v.next
    &&& v.success + v.failed == v.outcomes.len()
    &&& v.success == successes(v.outcomes)
    &&& v.stage == Stage::Ready ==> v.next == 0 && v.marks.len() == 0
    &&& v.stage == Stage::Pausing ==> v.next < v.total
    &&& (v.ending is Some <==> v.stage == Stage::Closing)
    &&& v.stage == Stage::Opening ==> v.attempt == 0 && v.alerts == 0
    &&& v.attempt <= MAX_RETRIES
    &&& in_task(v.stage) && v.stage != Stage::Opening && v.stage != Stage::Closing ==> 1
        <= v.attempt
    &&& v.alerts <= 1
    &&& v.alerts == 1 ==> !in_task(v.stage) || (v.stage == Stage::Closing && v.attempt
        == MAX_RETRIES)
    &&& picks(v.marks, MarkKind::Started) == positions(v.next)
    &&& picks(v.marks, MarkKind::Settled) == positions(v.outcomes.len())
    &&& picks(v.marks, MarkKind::Progress) == if v.stage == Stage::Finished {
        ordinals(v.next) + seq![v.total]
    } else {
        ordinals(v.next)
    }
    &&& forall|i: int|
        0 <= i < v.marks.len() ==> (#[trigger] v.marks[i] matches Mark::Progress(_, t)
            ==> t == v.total)
}

proof fn lemma_totals_push(v: RunView, m: Mark)
    requires
        forall|i: int|
            0 <= i < v.marks.len() ==> (#[trigger] v.marks[i] matches Mark::Progress(_, t)
                ==> t == v.total),
        m matches Mark::Progress(_, t) ==> t == v.total,
    ensures
        forall|i: int|
            0 <= i < v.marks.push(m).len() ==> (#[trigger] v.marks.push(m)[i] matches Mark::Progress(
                _,
                t,
            ) ==> t == v.total),
{
    assert forall|i: int| 0 <= i < v.marks.push(m).len() implies (#[trigger] v.marks.push(
        m,
    )[i] matches Mark::Progress(_, t) ==> t == v.total) by {
        if i < v.marks.len() {
            assert(v.marks.push(m)[i] == v.marks[i]);
        }
    }
}


proof fn lemma_positions_push(n: nat)
    ensures
        positions(n) + seq![n] == positions(n + 1),
        ordinals(n) + seq![(n + 1) as nat] == ordinals(n + 1),
{
    assert(positions(n) + seq![n] =~= positions(n + 1));
    assert(ordinals(n) + seq![(n + 1) as nat] =~= ordinals(n + 1));
}

proof fn lemma_checkpoint_inv(v: RunView, cancelled: bool)
    requires
        v.next <= v.total,
        v.outcomes.len() == v.next,
        v.success + v.failed == v.outcomes.len(),
        v.success == successes(v.outcomes),
        v.stage == Stage::Ready ==> v.next == 0 && v.marks.len() == 0,
        v.stage == Stage::Ready || v.stage == Stage::Pausing || v.stage == Stage::Closing,
        v.ending is None,
        v.attempt <= MAX_RETRIES,
        v.alerts <= 1,
        picks(v.marks, MarkKind::Started) == positions(v.next),
        picks(v.marks, MarkKind::Settled) == positions(v.outcomes.len()),
        picks(v.marks, MarkKind::Progress) == ordinals(v.next),
        forall|i: int|
            0 <= i < v.marks.len() ==> (#[trigger] v.marks[i] matches Mark::Progress(_, t)
                ==> t == v.total),
    ensures
        view_inv(checkpoint(v, cancelled)),
{
    broadcast use lemma_picks_push;

    let u = v;
    let w = checkpoint(u, cancelled);
    lemma_positions_push(v.next);
    if v.next >= v.total || cancelled {
        let base = if v.next >= v.total { u } else { logged(u) };
        lemma_totals_push(u, Mark::Log);
        lemma_totals_push(base, Mark::Progress(v.total, v.total));
        let b2 = RunView { marks: base.marks.push(Mark::Progress(v.total, v.total)), ..base };
        lemma_totals_push(b2, Mark::Log);
        assert(w.marks == b2.marks.push(Mark::Log));
    } else {
        let b1 = RunView { marks: u.marks.push(Mark::Progress(v.next + 1, v.total)), ..u };
        lemma_totals_push(u, Mark::Progress(v.next + 1, v.total));
        let b2 = RunView { marks: b1.marks.push(Mark::Started(v.next)), ..u };
        lemma_totals_push(b1, Mark::Started(v.next));
        lemma_totals_push(b2, Mark::Log);
        assert(w.marks == b2.marks.push(Mark::Log));
    }
}

proof fn lemma_settle_inv(v: RunView, cancelled: bool)
    requires
        view_inv(v),
        v.stage == Stage::Closing,
    ensures
        view_inv(settle(v, cancelled)),
{
    broadcast use lemma_picks_push;

    let ok = v.ending == Some(Ending::Saved);
    let w = RunView {
        success: if ok { v.success + 1 } else { v.success },
        failed: if ok { v.failed } else { v.failed + 1 },
        outcomes: v.outcomes.push(ok),
        ending: None,
        marks: v.marks.push(Mark::Settled((v.next - 1) as nat)),
        ..v
    };
    lemma_positions_push(v.outcomes.len());
    lemma_successes_push(v.outcomes, ok);
    lemma_totals_push(v, Mark::Settled((v.next - 1) as nat));
    if !cancelled && w.next < w.total {
    } else {
        lemma_checkpoint_inv(w, cancelled);
    }
}

proof fn lemma_retry_inv(v: RunView, cancelled: bool)
    requires
        view_inv(v),
        in_task(v.stage),
        v.stage != Stage::Opening,
        v.stage != Stage::Closing,
    ensures
        view_inv(retry(v, cancelled)),
        view_inv(retry(logged(v), cancelled)),
{
    broadcast use lemma_picks_push;

    lemma_totals_push(v, Mark::Log);
    let l = logged(v);
    lemma_totals_push(l, Mark::Log);
    assert(view_inv(l));
}

/// Every report keeps what holds of every state of a batch.
pub proof fn lemma_next_keeps_inv(v: RunView, r: Report, cancelled: bool)
    requires
        view_inv(v),
    ensures
        view_inv(next_view(v, r, cancelled)),
{
    broadcast use lemma_picks_push;

    match v.stage {
        Stage::Ready => {
            lemma_checkpoint_inv(v, cancelled);
        },
        Stage::Pausing => {
            lemma_checkpoint_inv(v, cancelled);
        },
        Stage::Opening => {
            if went_through(r) {
                if !cancelled {
                    lemma_totals_push(v, Mark::Log);
                }
            } else {
                lemma_settle_inv(end_task(v, Ending::Fault), cancelled);
            }
        },
        Stage::Solving => {
            if went_through(r) {
                lemma_totals_push(v, Mark::Log);
            } else {
                let u = unsolved(v);
                lemma_totals_push(v, Mark::Log);
                if v.attempt == MAX_RETRIES {
                    let l = logged(v);
                    lemma_totals_push(l, Mark::Alert((v.next - 1) as nat));
                    assert(u.marks == l.marks.push(Mark::Alert((v.next - 1) as nat)));
                    assert(view_inv(end_task(u, Ending::Exhausted)));
                } else {
                    lemma_retry_inv(v, cancelled);
                }
            }
        },
        Stage::Verifying => {
            lemma_retry_inv(v, cancelled);
            lemma_totals_push(v, Mark::Log);
        },
        Stage::Downloading => {
            lemma_retry_inv(v, cancelled);
        },
        Stage::Saving => {
            lemma_retry_inv(v, cancelled);
            lemma_totals_push(v, Mark::Log);
        },
        Stage::Closing => {
            lemma_settle_inv(v, cancelled);
        },
        Stage::Navigating => {
            lemma_retry_inv(v, cancelled);
        },
        Stage::FillingCode => {
            lemma_retry_inv(v, cancelled);
        },
        Stage::Capturing => {
            lemma_retry_inv(v, cancelled);
        },
        Stage::FillingCaptcha => {
            lemma_retry_inv(v, cancelled);
        },
        Stage::Submitting => {
            lemma_retry_inv(v, cancelled);
        },
        Stage::Finished => {},
    }
}


/// The view after a sequence of reports, the flag reading `cancelled` at each.
pub open spec fn run(v: RunView, rs: Seq<Report>, cancelled: bool) -> RunView
    decreases rs.len(),
{
    if rs.len() == 0 {
        v
    } else {
        run(next_view(v, rs[0], cancelled), rs.drop_first(), cancelled)
    }
}

proof fn lemma_run_split(v: RunView, rs: Seq<Report>, n: int, cancelled: bool)
    requires
        0 <= n <= rs.len(),
    ensures
        run(v, rs, cancelled) == run(run(v, rs.take(n), cancelled), rs.skip(n), cancelled),
    decreases n,
{
    if n == 0 {
        assert(rs.take(0).len() == 0);
        assert(rs.skip(0) =~= rs);
    } else {
        let w = next_view(v, rs[0], cancelled);
        lemma_run_split(w, rs.drop_first(), n - 1, cancelled);
        assert(rs.take(n).drop_first() =~= rs.drop_first().take(n - 1));
        assert(rs.drop_first().skip(n - 1) =~= rs.skip(n));
        assert(rs.take(n)[0] == rs[0]);
    }
}

/// Counts of outcomes against invoices started: once no invoice is in hand,
/// the successes and failures together number the invoices that were begun,
/// which may be fewer than the batch holds when it was cancelled.
pub proof fn lemma_counts_match_started(v: RunView)
    requires
        view_inv(v),
        !in_task(v.stage),
    ensures
        v.success + v.failed == picks(v.marks, MarkKind::Started).len(),
        v.success + v.failed == v.outcomes.len(),
        v.outcomes.len() <= v.total,
{
}

/// Each invoice gets at most one final status, and only one that was begun:
/// the final statuses name the invoices at positions `0, 1, ...` in order, one
/// each, as many as there are outcomes.
pub proof fn lemma_one_final_status_each(v: RunView)
    requires
        view_inv(v),
    ensures
        picks(v.marks, MarkKind::Settled).len() == v.outcomes.len(),
        forall|a: int, b: int|
            0 <= a < b < picks(v.marks, MarkKind::Settled).len() ==> picks(
                v.marks,
                MarkKind::Settled,
            )[a] != picks(v.marks, MarkKind::Settled)[b],
        forall|a: int|
            0 <= a < picks(v.marks, MarkKind::Settled).len() ==> picks(
                v.marks,
                MarkKind::Settled,
            )[a] < v.next,
{
}

/// A batch cancelled before its first invoice ends at once, with nothing
/// counted, no outcome, and no invoice begun.
pub proof fn lemma_cancel_before_start(total: nat, r: Report)
    ensures
        next_view(initial_view(total), r, true).stage == Stage::Finished,
        next_view(initial_view(total), r, true).success == 0,
        next_view(initial_view(total), r, true).failed == 0,
        next_view(initial_view(total), r, true).outcomes.len() == 0,
        picks(next_view(initial_view(total), r, true).marks, MarkKind::Started).len() == 0,
{
    broadcast use lemma_picks_push;

    let v = initial_view(total);
    assert(picks(v.marks, MarkKind::Started) =~= seq![]);
}

/// Without cancellation a batch finishes only once every invoice was begun.
pub proof fn lemma_uncancelled_finish(v: RunView, r: Report)
    requires
        view_inv(v),
        v.stage != Stage::Finished,
        next_view(v, r, false).stage == Stage::Finished,
    ensures
        next_view(v, r, false).next == v.total,
{
}

/// Progress events come in order: one per invoice begun with `current`
/// counting `1, 2, ...`, and at the end one at `(total, total)`; each carries
/// the batch's total.
pub proof fn lemma_progress_in_order(v: RunView)
    requires
        view_inv(v),
        v.stage == Stage::Finished,
        v.next == v.total,
    ensures
        picks(v.marks, MarkKind::Progress) == ordinals(v.total) + seq![v.total],
        forall|i: int|
            0 <= i < v.marks.len() ==> (#[trigger] v.marks[i] matches Mark::Progress(_, t)
                ==> t == v.total),
{
}

/// The four reports of an attempt whose solver fails.
pub open spec fn unsolved_attempt(rs: Seq<Report>) -> bool {
    &&& rs.len() == 4
    &&& rs[0] matches Report::Navigated(x) && x is Ok
    &&& rs[1] matches Report::CodeFilled(x) && x is Ok
    &&& rs[2] matches Report::Captured(x) && x is Ok
    &&& rs[3] matches Report::Solved(x) && x is Err
}

proof fn lemma_unsolved_attempt(v: RunView, rs: Seq<Report>)
    requires
        view_inv(v),
        v.stage == Stage::Navigating,
        unsolved_attempt(rs),
    ensures
        v.attempt < MAX_RETRIES ==> {
            let w = run(v, rs, false);
            &&& w.stage == Stage::Navigating
            &&& w.attempt == v.attempt + 1
            &&& w.alerts == v.alerts
            &&& picks(w.marks, MarkKind::Alert) == picks(v.marks, MarkKind::Alert)
            &&& view_inv(w)
            &&& w.next == v.next
            &&& w.success == v.success && w.failed == v.failed && w.outcomes == v.outcomes
        },
        v.attempt == MAX_RETRIES ==> {
            let w = run(v, rs, false);
            &&& w.stage == Stage::Closing
            &&& w.ending == Some(Ending::Exhausted)
            &&& w.attempt == MAX_RETRIES
            &&& picks(w.marks, MarkKind::Alert) == picks(v.marks, MarkKind::Alert) + seq![
                (v.next - 1) as nat,
            ]
            &&& view_inv(w)
            &&& w.next == v.next
            &&& w.success == v.success && w.failed == v.failed && w.outcomes == v.outcomes
        },
{
    broadcast use lemma_picks_push;

    reveal_with_fuel(run, 5);
    let v1 = next_view(v, rs[0], false);
    let v2 = next_view(v1, rs[1], false);
    let v3 = next_view(v2, rs[2], false);
    let v4 = next_view(v3, rs[3], false);
    lemma_next_keeps_inv(v, rs[0], false);
    lemma_next_keeps_inv(v1, rs[1], false);
    lemma_next_keeps_inv(v2, rs[2], false);
    lemma_next_keeps_inv(v3, rs[3], false);
    assert(rs.drop_first().drop_first().drop_first().drop_first().len() == 0);
    assert(run(v, rs, false) == v4);
    assert(v3.stage == Stage::Solving && v3.marks == v.marks && v3.attempt == v.attempt);
}

/// An invoice whose solver never reads the captcha, with every other step
/// going through and no cancellation: it uses exactly `MAX_RETRIES` attempts,
/// hands out its captcha once, on the last attempt only, and is counted as
/// failed because its attempts ran out.
pub proof fn lemma_unreadable_captcha_exhausts(v: RunView, rs: Seq<Report>)
    requires
        view_inv(v),
        v.stage == Stage::Opening,
        rs.len() == 14,
        rs[0] matches Report::Opened(x) && x is Ok,
        unsolved_attempt(rs.subrange(1, 5)),
        unsolved_attempt(rs.subrange(5, 9)),
        unsolved_attempt(rs.subrange(9, 13)),
        rs[13] is Closed,
    ensures
        picks(run(v, rs.take(9), false).marks, MarkKind::Alert) == picks(v.marks, MarkKind::Alert),
        run(v, rs.take(13), false).stage == Stage::Closing,
        run(v, rs.take(13), false).ending == Some(Ending::Exhausted),
        run(v, rs.take(13), false).attempt == MAX_RETRIES,
        picks(run(v, rs.take(13), false).marks, MarkKind::Alert) == picks(v.marks, MarkKind::Alert)
            + seq![(v.next - 1) as nat],
        run(v, rs, false).failed == v.failed + 1,
        run(v, rs, false).success == v.success,
        run(v, rs, false).outcomes == v.outcomes.push(false),
{
    broadcast use lemma_picks_push;

    let v1 = next_view(v, rs[0], false);
    lemma_next_keeps_inv(v, rs[0], false);
    assert(v1.stage == Stage::Navigating && v1.attempt == 1 && v1.marks == v.marks.push(Mark::Log));
    reveal_with_fuel(run, 2);
    assert(rs.take(1).drop_first().len() == 0);
    assert(run(v, rs.take(1), false) == v1);
    let a1 = rs.subrange(1, 5);
    let a2 = rs.subrange(5, 9);
    let a3 = rs.subrange(9, 13);
    lemma_unsolved_attempt(v1, a1);
    let v5 = run(v1, a1, false);
    lemma_unsolved_attempt(v5, a2);
    let v9 = run(v5, a2, false);
    lemma_unsolved_attempt(v9, a3);
    let v13 = run(v9, a3, false);
    lemma_run_split(v, rs.take(5), 1, false);
    assert(rs.take(5).take(1) =~= rs.take(1));
    assert(rs.take(5).skip(1) =~= a1);
    lemma_run_split(v, rs.take(9), 5, false);
    assert(rs.take(9).take(5) =~= rs.take(5));
    assert(rs.take(9).skip(5) =~= a2);
    lemma_run_split(v, rs.take(13), 9, false);
    assert(rs.take(13).take(9) =~= rs.take(9));
    assert(rs.take(13).skip(9) =~= a3);
    lemma_run_split(v, rs, 13, false);
    assert(rs.skip(13) =~= seq![rs[13]]);
    assert(seq![rs[13]].drop_first().len() == 0);
    assert(run(v13, seq![rs[13]], false) == next_view(v13, rs[13], false));
}

} // verus!
