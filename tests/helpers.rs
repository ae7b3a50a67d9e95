use autoinvoice::captcha::{captcha_answer, solve_request, SOLVER_MODEL};
use autoinvoice::error::AppError;
use autoinvoice::history::Settings;
use autoinvoice::naming::{invoice_pdf_path, sanitize_code};
use autoinvoice::portal::{banner_from_text, download_url, is_captcha_rejection, join_origin, mentions_captcha_error};
use autoinvoice::records::progress_percentage;
use autoinvoice::text::{decimal, trim};

#[test]
fn pdf_paths_of_codes() {
    assert_eq!(invoice_pdf_path("/tmp/out", "A/B:C"), "/tmp/out/A_B_C.pdf");
    assert_eq!(invoice_pdf_path("/tmp/out", "D"), "/tmp/out/D.pdf");
    assert_eq!(invoice_pdf_path("/tmp/out/", "D"), "/tmp/out/D.pdf");
    assert_eq!(invoice_pdf_path("", "D"), "D.pdf");
    assert_eq!(sanitize_code("a\\b*c?d\"e<f>g|h"), "a_b_c_d_e_f_g_h");
}

#[test]
fn error_messages() {
    assert_eq!(AppError::CaptchaFailed(3).message(), "Captcha solving failed after 3 attempts");
    assert_eq!(AppError::DownloadFailed("x".to_string()).message(), "Download failed: x");
    assert_eq!(AppError::ConfigError("k".to_string()).message(), "Invalid configuration: k");
    assert_eq!(AppError::IoError("d".to_string()).message(), "IO error: d");
    assert_eq!(AppError::CaptchaFailed(1234).message(), "Captcha solving failed after 1234 attempts");
}

#[test]
fn decimal_and_percentages() {
    assert_eq!(decimal(0), "0");
    assert_eq!(decimal(4294967295), "4294967295");
    assert_eq!(progress_percentage(1, 3), 33);
    assert_eq!(progress_percentage(2, 3), 66);
    assert_eq!(progress_percentage(3, 3), 100);
    assert_eq!(progress_percentage(0, 0), 0);
    assert_eq!(progress_percentage(4294967295, 4294967295), 100);
}

#[test]
fn trimming() {
    assert_eq!(trim("  a b \n", false), "a b");
    assert_eq!(trim(" \"'ab'\" ", true), "ab");
    assert_eq!(trim("\u{3000}x\u{a0}", false), "x");
    assert_eq!(trim("   ", false), "");
}

#[test]
fn captcha_answers() {
    assert_eq!(captcha_answer(Some("  \"AB12\" ".to_string())).ok(), Some("AB12".to_string()));
    assert!(matches!(captcha_answer(Some("  ' \" ".to_string())), Err(AppError::CaptchaFailed(1))));
    assert!(matches!(captcha_answer(Some(String::new())), Err(AppError::CaptchaFailed(1))));
    assert!(matches!(captcha_answer(None), Err(AppError::CaptchaFailed(1))));
}

#[test]
fn captcha_requests() {
    match solve_request("", &vec![1, 2, 3]) {
        Err(e) => assert_eq!(e.message(), "Invalid configuration: OpenAI API key is not set"),
        Ok(_) => panic!("expected a configuration error"),
    }
    let q = solve_request("key", &vec![0x89, 0x50, 0x4e]).ok().unwrap();
    assert_eq!(q.image_url, "data:image/png;base64,iVBO");
    assert_eq!(q.authorization, "Bearer key");
    assert_eq!(q.model, SOLVER_MODEL);
    assert_eq!(q.max_tokens, 100);
}

#[test]
fn banners() {
    assert!(is_captcha_rejection("Mã CAPTCHA không hợp lệ"));
    assert!(is_captcha_rejection("Mã xác thực KHÔNG ĐÚNG"));
    assert!(is_captcha_rejection("Nhập SAI mã"));
    assert!(!is_captcha_rejection("Không tìm thấy hóa đơn"));
    assert!(mentions_captcha_error("captcha"));
    assert!(!mentions_captcha_error("CAPTCHA"));
    assert_eq!(banner_from_text("  \n ".to_string()), None);
    assert_eq!(banner_from_text(" Lỗi ".to_string()), Some(" Lỗi ".to_string()));
}

#[test]
fn download_urls() {
    assert_eq!(
        download_url("https://h.vn/a.pdf", "nonsense").ok(),
        Some("https://h.vn/a.pdf".to_string())
    );
    assert_eq!(
        download_url("/HomeNoLogin/downloadPDF?id=1", "https://x.vnpt-invoice.com.vn/HomeNoLogin").ok(),
        Some("https://x.vnpt-invoice.com.vn/HomeNoLogin/downloadPDF?id=1".to_string())
    );
    assert!(matches!(download_url("/a", "not a url"), Err(AppError::BrowserError(_))));
    assert_eq!(join_origin("https", "h", "/p"), "https://h/p");
}

#[test]
fn settings_fall_back_to_default_directory() {
    let s = Settings::from_stored("k".to_string(), "u".to_string(), String::new(), "/docs".to_string());
    assert_eq!(s.download_directory, "/docs");
    let s = Settings::from_stored("k".to_string(), "u".to_string(), "/d".to_string(), "/docs".to_string());
    assert_eq!(s.download_directory, "/d");
}
