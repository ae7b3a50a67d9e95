use autoinvoice::captcha::captcha_answer;
use autoinvoice::error::AppError;
use autoinvoice::orchestrator::{BatchRun, LogLevel, Notice};
use autoinvoice::records::{BatchResult, DownloadConfig, InvoiceDownloadRequest};
use autoinvoice::session::{Command, Report};

fn config() -> DownloadConfig {
    DownloadConfig {
        vnpt_url: "https://x.vnpt-invoice.com.vn/HomeNoLogin".to_string(),
        openai_api_key: "key".to_string(),
        download_directory: "/tmp/out".to_string(),
        headless: true,
    }
}

fn batch(codes: &[&str]) -> BatchRun {
    let invoices = codes
        .iter()
        .enumerate()
        .map(|(i, c)| InvoiceDownloadRequest { id: format!("inv{}", i), code: c.to_string() })
        .collect();
    BatchRun::new("b1".to_string(), config(), invoices)
}

/// The answers of a portal on which every step goes through.
fn smooth(c: &Command) -> Report {
    match c {
        Command::OpenSession { .. } => Report::Opened(Ok(())),
        Command::Navigate(_) => Report::Navigated(Ok(())),
        Command::FillCode(_) => Report::CodeFilled(Ok(())),
        Command::CaptureCaptcha => Report::Captured(Ok(vec![1, 2, 3])),
        Command::Solve => Report::Solved(Ok("AB12".to_string())),
        Command::FillCaptcha(_) => Report::CaptchaFilled(Ok(())),
        Command::Submit => Report::Submitted(Ok(())),
        Command::ReadBanner => Report::Banner(None),
        Command::Download(_) => Report::Downloaded(Ok(vec![37, 80, 68, 70])),
        Command::Save { .. } => Report::Saved(Ok(())),
        Command::CloseSession => Report::Closed,
        Command::Pause { .. } => Report::Ready,
        Command::Finish => Report::Ready,
    }
}

struct Outcome {
    notices: Vec<Notice>,
    commands: Vec<String>,
    saved: Vec<String>,
    result: BatchResult,
}

fn drive(
    mut run: BatchRun,
    mut respond: impl FnMut(&Command) -> Report,
    mut cancelled: impl FnMut(usize) -> bool,
) -> Outcome {
    let mut report = Report::Ready;
    let mut notices = Vec::new();
    let mut commands = Vec::new();
    let mut saved = Vec::new();
    let mut steps = 0;
    loop {
        let step = run.step(report, cancelled(steps));
        steps += 1;
        notices.extend(step.notices);
        let name = match &step.command {
            Command::OpenSession { .. } => "open",
            Command::Navigate(_) => "navigate",
            Command::FillCode(_) => "fill_code",
            Command::CaptureCaptcha => "capture",
            Command::Solve => "solve",
            Command::FillCaptcha(_) => "fill_captcha",
            Command::Submit => "submit",
            Command::ReadBanner => "banner",
            Command::Download(_) => "download",
            Command::Save { .. } => "save",
            Command::CloseSession => "close",
            Command::Pause { .. } => "pause",
            Command::Finish => "finish",
        };
        commands.push(name.to_string());
        if let Command::Save { path, .. } = &step.command {
            saved.push(path.clone());
        }
        if let Command::Finish = step.command {
            break;
        }
        report = respond(&step.command);
        assert!(steps < 1000);
    }
    Outcome { notices, commands, saved, result: run.into_result() }
}

fn progress(notices: &[Notice]) -> Vec<(u32, u32, u32)> {
    notices
        .iter()
        .filter_map(|n| match n {
            Notice::Progress(e) => Some((e.current, e.total, e.percentage)),
            _ => None,
        })
        .collect()
}

fn settled(notices: &[Notice]) -> Vec<usize> {
    notices
        .iter()
        .filter_map(|n| match n {
            Notice::Settled(j, _) => Some(*j),
            _ => None,
        })
        .collect()
}

fn alerts(notices: &[Notice]) -> usize {
    notices.iter().filter(|n| matches!(n, Notice::CaptchaRequired(_, _))).count()
}

fn count(commands: &[String], name: &str) -> usize {
    commands.iter().filter(|c| c.as_str() == name).count()
}

#[test]
fn three_invoices_progress_in_order() {
    let out = drive(batch(&["C1_aaaa", "C2_bbbb", "C3_cccc"]), smooth, |_| false);
    assert_eq!(progress(&out.notices), vec![(1, 3, 33), (2, 3, 66), (3, 3, 100), (3, 3, 100)]);
    assert_eq!(out.result.success_count, 3);
    assert_eq!(out.result.failed_count, 0);
    assert_eq!(out.result.total, 3);
    assert_eq!(settled(&out.notices), vec![0, 1, 2]);
    assert_eq!(count(&out.commands, "pause"), 2);
    assert_eq!(count(&out.commands, "open"), 3);
    assert_eq!(count(&out.commands, "close"), 3);
    let statuses: Vec<String> = out
        .notices
        .iter()
        .filter_map(|n| match n {
            Notice::Started(_, e) | Notice::Settled(_, e) => Some(format!("{}:{}", e.invoice_id, e.status)),
            _ => None,
        })
        .collect();
    assert_eq!(
        statuses,
        vec![
            "inv0:downloading", "inv0:success", "inv1:downloading", "inv1:success",
            "inv2:downloading", "inv2:success"
        ]
    );
    match out.notices.last() {
        Some(Notice::Log(LogLevel::Info, m)) => {
            assert_eq!(m, "Batch complete: 3/3 successful, 0/3 failed")
        },
        _ => panic!("expected the summary line last"),
    }
}

#[test]
fn cancel_before_any_invoice() {
    let out = drive(batch(&["C1_aaaa", "C2_bbbb"]), smooth, |_| true);
    assert_eq!(out.result.success_count, 0);
    assert_eq!(out.result.failed_count, 0);
    assert_eq!(out.result.results.len(), 0);
    assert_eq!(out.result.total, 2);
    assert_eq!(out.commands, vec!["finish"]);
    assert_eq!(progress(&out.notices), vec![(2, 2, 100)]);
    assert!(matches!(&out.notices[0], Notice::Log(LogLevel::Warn, m) if m == "Download batch cancelled by user"));
}

#[test]
fn unreadable_captcha_exhausts_attempts() {
    let respond = |c: &Command| match c {
        Command::Solve => Report::Solved(captcha_answer(Some(String::new()))),
        _ => smooth(c),
    };
    let out = drive(batch(&["C25TLK0019654_Ln"]), respond, |_| false);
    assert_eq!(count(&out.commands, "navigate"), 3);
    assert_eq!(count(&out.commands, "solve"), 3);
    assert_eq!(count(&out.commands, "submit"), 0);
    assert_eq!(alerts(&out.notices), 1);
    let alert_at = out.notices.iter().position(|n| matches!(n, Notice::CaptchaRequired(_, _))).unwrap();
    let third_attempt = out
        .notices
        .iter()
        .position(|n| matches!(n, Notice::Log(_, m) if m.starts_with("Attempt 3/3")))
        .unwrap();
    assert!(alert_at > third_attempt);
    if let Notice::CaptchaRequired(j, e) = &out.notices[alert_at] {
        assert_eq!(*j, 0);
        assert_eq!(e.image_base64, "AQID");
        assert_eq!(e.invoice_code, "C25TLK0019654_Ln");
    }
    assert_eq!(out.result.failed_count, 1);
    assert_eq!(out.result.results[0].status, "failed");
    assert_eq!(
        out.result.results[0].error,
        Some("Captcha solving failed after 3 attempts".to_string())
    );
}

#[test]
fn rejected_captcha_then_clean_attempt() {
    let mut banners = 0;
    let respond = |c: &Command| match c {
        Command::ReadBanner => {
            banners += 1;
            if banners == 1 {
                Report::Banner(Some("Mã captcha không đúng".to_string()))
            } else {
                Report::Banner(None)
            }
        },
        _ => smooth(c),
    };
    let out = drive(batch(&["C25TLK0019654_Ln"]), respond, |_| false);
    assert_eq!(count(&out.commands, "navigate"), 2);
    assert_eq!(count(&out.commands, "download"), 1);
    assert_eq!(out.result.success_count, 1);
    assert_eq!(out.result.results[0].status, "success");
    assert_eq!(out.result.results[0].file_path, Some("/tmp/out/C25TLK0019654_Ln.pdf".to_string()));
    assert_eq!(out.saved, vec!["/tmp/out/C25TLK0019654_Ln.pdf"]);
}

#[test]
fn hostile_codes_are_saved_under_safe_names() {
    let out = drive(batch(&["A/B:C", "D"]), smooth, |_| false);
    assert_eq!(out.saved, vec!["/tmp/out/A_B_C.pdf", "/tmp/out/D.pdf"]);
    assert_eq!(out.result.results[0].file_path, Some("/tmp/out/A_B_C.pdf".to_string()));
    assert_eq!(out.result.results[1].file_path, Some("/tmp/out/D.pdf".to_string()));
}

#[test]
fn cancel_during_first_invoice_counts_it_once() {
    // The flag is raised once the first invoice has been begun.
    let out = drive(batch(&["C1_aaaa", "C2_bbbb", "C3_cccc"]), smooth, |steps| steps >= 1);
    assert_eq!(out.result.results.len(), 1);
    assert_eq!(out.result.success_count + out.result.failed_count, 1);
    assert_eq!(out.result.results[0].error, Some("Download failed: Download cancelled".to_string()));
    assert_eq!(settled(&out.notices), vec![0]);
    let started = out.notices.iter().filter(|n| matches!(n, Notice::Started(_, _))).count();
    assert_eq!(started, 1);
    assert_eq!(count(&out.commands, "navigate"), 0);
    assert_eq!(count(&out.commands, "close"), 1);
    assert_eq!(count(&out.commands, "pause"), 0);
    assert_eq!(progress(&out.notices), vec![(1, 3, 33), (3, 3, 100)]);
}

#[test]
fn empty_download_is_retried() {
    let mut downloads = 0;
    let respond = |c: &Command| match c {
        Command::Download(_) => {
            downloads += 1;
            if downloads == 1 {
                Report::Downloaded(Ok(Vec::new()))
            } else {
                smooth(c)
            }
        },
        _ => smooth(c),
    };
    let out = drive(batch(&["C1_aaaa"]), respond, |_| false);
    assert_eq!(count(&out.commands, "navigate"), 2);
    assert_eq!(out.result.success_count, 1);
    assert!(out.notices.iter().any(
        |n| matches!(n, Notice::Log(LogLevel::Warn, m) if m == "Download failed: Download failed: Empty PDF received")
    ));
}

#[test]
fn other_banner_still_downloads() {
    let respond = |c: &Command| match c {
        Command::ReadBanner => Report::Banner(Some("Thông báo bảo trì".to_string())),
        _ => smooth(c),
    };
    let out = drive(batch(&["C1_aaaa"]), respond, |_| false);
    assert_eq!(count(&out.commands, "navigate"), 1);
    assert_eq!(count(&out.commands, "download"), 1);
    assert_eq!(out.result.success_count, 1);
}

#[test]
fn navigation_failure_is_retried() {
    let mut navigations = 0;
    let respond = |c: &Command| match c {
        Command::Navigate(_) => {
            navigations += 1;
            if navigations == 1 {
                Report::Navigated(Err(AppError::BrowserError("timeout".to_string())))
            } else {
                smooth(c)
            }
        },
        _ => smooth(c),
    };
    let out = drive(batch(&["A/B:C", "C2_bbbb"]), respond, |_| false);
    assert_eq!(count(&out.commands, "navigate"), 3);
    assert_eq!(count(&out.commands, "close"), 2);
    assert_eq!(out.result.success_count, 2);
    assert_eq!(out.result.failed_count, 0);
    assert_eq!(out.result.results[0].file_path, Some("/tmp/out/A_B_C.pdf".to_string()));
    assert!(out.notices.iter().any(
        |n| matches!(n, Notice::Log(LogLevel::Warn, m) if m == "Attempt failed: Browser error: timeout")
    ));
    assert_eq!(settled(&out.notices), vec![0, 1]);
}

#[test]
fn browser_failing_every_attempt_exhausts_them() {
    let respond = |c: &Command| match c {
        Command::Submit => Report::Submitted(Err(AppError::ElementNotFound("Submit button".to_string()))),
        _ => smooth(c),
    };
    let out = drive(batch(&["C1_aaaa"]), respond, |_| false);
    assert_eq!(count(&out.commands, "submit"), 3);
    assert_eq!(count(&out.commands, "download"), 0);
    assert_eq!(alerts(&out.notices), 0);
    assert_eq!(out.result.failed_count, 1);
    assert_eq!(
        out.result.results[0].error,
        Some("Captcha solving failed after 3 attempts".to_string())
    );
}

#[test]
fn failed_capture_is_retried_with_a_new_image() {
    let mut captures = 0;
    let respond = |c: &Command| match c {
        Command::CaptureCaptcha => {
            captures += 1;
            if captures == 1 {
                Report::Captured(Err(AppError::ElementNotFound("Captcha image".to_string())))
            } else {
                Report::Captured(Ok(vec![9, 9, 9]))
            }
        },
        Command::Solve => Report::Solved(captcha_answer(None)),
        _ => smooth(c),
    };
    let out = drive(batch(&["C1_aaaa"]), respond, |_| false);
    assert_eq!(count(&out.commands, "capture"), 3);
    assert_eq!(count(&out.commands, "solve"), 2);
    let images: Vec<String> = out
        .notices
        .iter()
        .filter_map(|n| match n {
            Notice::CaptchaRequired(_, e) => Some(e.image_base64.clone()),
            _ => None,
        })
        .collect();
    assert_eq!(images, vec!["CQkJ".to_string()]);
}

#[test]
fn session_that_cannot_open_fails_without_closing() {
    let respond = |c: &Command| match c {
        Command::OpenSession { .. } => Report::Opened(Err(AppError::BrowserError("no chrome".to_string()))),
        _ => smooth(c),
    };
    let out = drive(batch(&["C1_aaaa"]), respond, |_| false);
    assert_eq!(count(&out.commands, "close"), 0);
    assert_eq!(out.result.failed_count, 1);
    assert_eq!(out.result.results[0].error, Some("Browser error: no chrome".to_string()));
}

#[test]
fn empty_batch_finishes_at_once() {
    let out = drive(batch(&[]), smooth, |_| false);
    assert_eq!(out.commands, vec!["finish"]);
    assert_eq!(progress(&out.notices), vec![(0, 0, 0)]);
    assert_eq!(out.result.total, 0);
}

#[test]
fn configuration_is_checked_before_start() {
    let mut c = config();
    assert!(autoinvoice::orchestrator::check_config(&c).is_ok());
    c.vnpt_url = String::new();
    match autoinvoice::orchestrator::check_config(&c) {
        Err(e) => assert_eq!(e.message(), "Invalid configuration: Portal URL is not set"),
        Ok(_) => panic!("expected a configuration error"),
    }
    c.openai_api_key = String::new();
    match autoinvoice::orchestrator::check_config(&c) {
        Err(e) => assert_eq!(e.message(), "Invalid configuration: OpenAI API key is not set"),
        Ok(_) => panic!("expected a configuration error"),
    }
}

#[test]
fn cancelled_batch_logs_the_cancellation_before_closing() {
    // Raised during the pause after the first invoice.
    let out = drive(batch(&["C1_aaaa", "C2_bbbb"]), smooth, |steps| steps >= 12);
    let n = out.notices.len();
    assert!(matches!(&out.notices[n - 3], Notice::Log(LogLevel::Warn, m) if m == "Download batch cancelled by user"));
    assert!(matches!(&out.notices[n - 2], Notice::Progress(e) if e.current == 2 && e.total == 2));
    assert!(matches!(&out.notices[n - 1], Notice::Log(LogLevel::Info, m) if m == "Batch complete: 1/2 successful, 0/2 failed"));
    assert_eq!(out.result.results.len(), 1);
    assert_eq!(count(&out.commands, "pause"), 1);
    assert_eq!(count(&out.commands, "open"), 1);
}
