use autoinvoice::excel::{extract_vnpt_url, is_valid_invoice_code, scan_sheet, Cell};

#[test]
fn test_is_valid_invoice_code() {
    assert!(is_valid_invoice_code("C25TLK0019654_Ln"));
    assert!(is_valid_invoice_code("C25TLK0019655_Ln"));
    assert!(!is_valid_invoice_code(""));
    assert!(!is_valid_invoice_code("ABC123"));
    assert!(!is_valid_invoice_code("C123"));
}

#[test]
fn test_extract_vnpt_url() {
    let text = "Please visit https://3701642642-010-tt78.vnpt-invoice.com.vn/HomeNoLogin for more info";
    let url = extract_vnpt_url(text);
    assert!(url.is_some());
    assert!(url.unwrap().contains("vnpt-invoice.com.vn"));
}

#[test]
fn extract_url_stops_at_space_and_quotes() {
    assert_eq!(
        extract_vnpt_url("see \"https://a.vnpt-invoice.com.vn/x\" now"),
        Some("https://a.vnpt-invoice.com.vn/x".to_string())
    );
    assert_eq!(
        extract_vnpt_url("http://b.vnpt-invoice.com.vn/y z"),
        Some("http://b.vnpt-invoice.com.vn/y".to_string())
    );
}

#[test]
fn extract_url_rejects_other_domains() {
    assert_eq!(extract_vnpt_url("https://example.com/vnpt"), None);
    assert_eq!(extract_vnpt_url("no address here"), None);
    assert_eq!(
        extract_vnpt_url("https://example.com then http://c.vnpt-invoice.com.vn/"),
        Some("http://c.vnpt-invoice.com.vn/".to_string())
    );
}

#[test]
fn valid_code_counts_bytes() {
    // "C_" and four two-byte letters: six characters, ten bytes.
    assert!(is_valid_invoice_code("C_éééé"));
    assert!(!is_valid_invoice_code("C_abc"));
    assert!(!is_valid_invoice_code("c25tlk_ln"));
    assert!(!is_valid_invoice_code("C25TLK0019654"));
}

fn text(s: &str) -> Cell {
    Cell::Text(s.to_string())
}

#[test]
fn scan_sheet_finds_codes_under_header() {
    let rows = vec![
        vec![text("Tra cứu tại https://x.vnpt-invoice.com.vn/HomeNoLogin"), Cell::Other],
        vec![text("STT"), text("Mã tra cứu")],
        vec![Cell::Number("1".to_string()), text("  C25TLK0019654_Ln ")],
        vec![Cell::Number("2".to_string()), text("bad")],
        vec![Cell::Number("3".to_string())],
        vec![Cell::Number("4".to_string()), text("C25TLK0019655_Ln")],
    ];
    let res = match scan_sheet(&rows, "Sheet1".to_string()) {
        Ok(r) => r,
        Err(e) => panic!("{}", e.message()),
    };
    assert_eq!(res.invoices.len(), 2);
    assert_eq!(res.invoices[0].code, "C25TLK0019654_Ln");
    assert_eq!(res.invoices[0].row_number, 3);
    assert_eq!(res.invoices[1].code, "C25TLK0019655_Ln");
    assert_eq!(res.invoices[1].row_number, 6);
    assert_eq!(res.invoices[0].id.len(), 36);
    assert_ne!(res.invoices[0].id, res.invoices[1].id);
    assert_eq!(res.detected_url, Some("https://x.vnpt-invoice.com.vn/HomeNoLogin".to_string()));
    assert_eq!(res.total_rows, 6);
    assert_eq!(res.sheet_name, "Sheet1");
}

#[test]
fn scan_sheet_without_header_fails() {
    let rows = vec![vec![text("Code")], vec![text("C25TLK0019654_Ln")]];
    match scan_sheet(&rows, "S".to_string()) {
        Err(e) => assert_eq!(
            e.message(),
            "Excel parsing error: Could not find column 'MÃ TRA CỨU' in Excel file"
        ),
        Ok(_) => panic!("expected an error"),
    }
}

#[test]
fn scan_sheet_finds_address_after_header() {
    let rows = vec![
        vec![text("MÃ TRA CỨU")],
        vec![text("C25TLK0019654_Ln")],
        vec![text("link: https://late.vnpt-invoice.com.vn/p")],
    ];
    let res = scan_sheet(&rows, "S".to_string()).ok().unwrap();
    assert_eq!(res.invoices.len(), 1);
    assert_eq!(res.detected_url, Some("https://late.vnpt-invoice.com.vn/p".to_string()));
}
