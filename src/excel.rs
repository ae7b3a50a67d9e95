//! Locating invoice codes and the portal address in a worksheet.
use vstd::prelude::*;
use crate::error::AppError;
use crate::text::{
    contains, contains_char, find, first_occurrence, has_infix, is_white_space, strip, trim,
    white_space,
};

verus! {

/// An invoice code found in a worksheet.
pub struct InvoiceCode {
    pub id: String,
    pub code: String,
    /// One-based row of the worksheet that holds the code.
    pub row_number: usize,
}

/// What a worksheet yields.
pub struct ExcelParseResult {
    pub invoices: Vec<InvoiceCode>,
    pub detected_url: Option<String>,
    pub total_rows: usize,
    pub sheet_name: String,
}

/// A worksheet cell as the scan sees it: text, a number already written out
/// as text, or anything else.
pub enum Cell {
    Text(String),
    Number(String),
    Other,
}

/// A lookup code is accepted when it is non-empty, holds a `C` and an `_`,
/// and is longer than five bytes in UTF-8.
pub open spec fn valid_code(code: Seq<char>) -> bool {
    code.len() > 0 && code.contains('C') && code.contains('_') && (vstd::utf8::encode_utf8(
        code,
    ).len() as usize) > 5
}

/// Whether `code` has the shape of a portal lookup code.
pub fn is_valid_invoice_code(code: &str) -> (r: bool)
    ensures
        r == valid_code(code@),
{
    !code.is_empty() && contains_char(code, 'C') && contains_char(code, '_') && code.len() > 5
}

/// The portal's domain, which every accepted address holds.
pub open spec fn portal_domain() -> Seq<char> {
    "vnpt-invoice.com.vn"@
}

/// A character that ends an address inside running text.
pub open spec fn ends_address(c: char) -> bool {
    is_white_space(c) || c == '"' || c == '\''
}

/// `n` is the length of the longest prefix of `s` without an ending character.
pub open spec fn is_address_len(s: Seq<char>, n: int) -> bool {
    0 <= n <= s.len() && (forall|j: int| 0 <= j < n ==> !ends_address(s[j])) && (n == s.len()
        || ends_address(s[n]))
}

/// The address that starts at position `start` of `t`.
pub open spec fn address_at(t: Seq<char>, start: int) -> Seq<char> {
    let rest = t.subrange(start, t.len() as int);
    rest.subrange(0, choose|n: int| is_address_len(rest, n))
}

/// The address that starts where `scheme` first occurs in `t`, when it names
/// the portal.
pub open spec fn portal_address_after(t: Seq<char>, scheme: Seq<char>) -> Option<Seq<char>> {
    match first_occurrence(t, scheme) {
        Some(i) => if has_infix(address_at(t, i), portal_domain()) {
            Some(address_at(t, i))
        } else {
            None
        },
        None => None,
    }
}

/// The portal address in `t`: the one after the first `https://`, else the
/// one after the first `http://`.
pub open spec fn portal_address(t: Seq<char>) -> Option<Seq<char>> {
    match portal_address_after(t, "https://"@) {
        Some(u) => Some(u),
        None => portal_address_after(t, "http://"@),
    }
}

proof fn lemma_address_len_unique(s: Seq<char>, n: int)
    requires
        is_address_len(s, n),
    ensures
        (choose|k: int| is_address_len(s, k)) == n,
{
    let k = choose|k: int| is_address_len(s, k);
    assert(is_address_len(s, k));
    if k < n {
        assert(!ends_address(s[k]));
    } else if n < k {
        assert(!ends_address(s[n]));
    }
}

fn portal_address_from(text: &str, scheme: &str) -> (r: Option<String>)
    ensures
        r matches Some(u) ==> portal_address_after(text@, scheme@) == Some(u@),
        r is None ==> portal_address_after(text@, scheme@) is None,
{
    match find(text, scheme) {
        None => None,
        Some(start) => {
            let n = text.unicode_len();
            let rest = text.substring_char(start, n);
            let m = rest.unicode_len();
            let mut k: usize = 0;
            while k < m && !(white_space(rest.get_char(k)) || rest.get_char(k) == '"'
                || rest.get_char(k) == '\'')
                invariant
                    m == rest@.len(),
                    k <= m,
                    forall|j: int| 0 <= j < k ==> !ends_address(rest@[j]),
                decreases m - k,
            {
                k = k + 1;
            }
            proof {
                lemma_address_len_unique(rest@, k as int);
            }
            let url = rest.substring_char(0, k);
            if contains(url, "vnpt-invoice.com.vn") {
                Some(String::from_str(url))
            } else {
                None
            }
        },
    }
}

/// The portal address mentioned in `text`, if any.
pub fn extract_vnpt_url(text: &str) -> (r: Option<String>)
    ensures
        r matches Some(u) ==> portal_address(text@) == Some(u@),
        r is None ==> portal_address(text@) is None,
{
    match portal_address_from(text, "https://") {
        Some(u) => Some(u),
        None => portal_address_from(text, "http://"),
    }
}


/// What `str::to_uppercase` makes of a text.
pub uninterp spec fn upper_of(s: Seq<char>) -> Seq<char>;

/// Relies on `str::to_uppercase`: the result depends on the characters alone.
#[verifier::external_body]
fn uppercase(s: &str) -> (r: String)
    ensures
        r@ == upper_of(s@),
{
    s.to_uppercase()
}

/// Relies on `uuid::Uuid::new_v4`, written out by its `Display` impl: a fresh
/// random identifier in hyphenated form.
#[verifier::external_body]
fn new_invoice_id() -> (r: String)
    ensures
        r@.len() == 36,
{
    uuid::Uuid::new_v4().to_string()
}

/// The header label of the column that holds the lookup codes.
pub open spec fn code_header() -> Seq<char> {
    "MÃ TRA CỨU"@
}

/// A cell whose text, in upper case, holds the header label.
pub open spec fn is_header_cell(c: Cell) -> bool {
    match c {
        Cell::Text(t) => has_infix(upper_of(t@), code_header()),
        _ => false,
    }
}

pub open spec fn row_has_header(row: Seq<Cell>) -> bool {
    exists|j: int| 0 <= j < row.len() && is_header_cell(row[j])
}

/// `h` is the first row with a header cell.
pub open spec fn is_header_row(rows: Seq<Vec<Cell>>, h: int) -> bool {
    0 <= h < rows.len() && row_has_header(rows[h]@) && forall|k: int|
        0 <= k < h ==> !row_has_header(#[trigger] rows[k]@)
}

/// `c` is the last header cell of `row`.
pub open spec fn is_header_col(row: Seq<Cell>, c: int) -> bool {
    0 <= c < row.len() && is_header_cell(row[c]) && forall|k: int|
        c < k < row.len() ==> !is_header_cell(#[trigger] row[k])
}

/// Row and column of the code header: the last header cell of the first row
/// that has one.
pub open spec fn header_position(rows: Seq<Vec<Cell>>) -> Option<(int, int)> {
    if exists|h: int| is_header_row(rows, h) {
        let h = choose|h: int| is_header_row(rows, h);
        Some((h, choose|c: int| is_header_col(rows[h]@, c)))
    } else {
        None
    }
}

/// The code a cell offers: trimmed text, or a number as written.
pub open spec fn cell_code(c: Cell) -> Option<Seq<char>> {
    match c {
        Cell::Text(t) => Some(strip(t@, false)),
        Cell::Number(t) => Some(t@),
        Cell::Other => None,
    }
}

/// The code and one-based row number that row `r` contributes from column `col`.
pub open spec fn row_code(rows: Seq<Vec<Cell>>, col: int, r: int) -> Seq<(Seq<char>, nat)> {
    if 0 <= col < rows[r]@.len() {
        match cell_code(rows[r]@[col]) {
            Some(code) => if valid_code(code) {
                seq![(code, (r + 1) as nat)]
            } else {
                seq![]
            },
            None => seq![],
        }
    } else {
        seq![]
    }
}

/// The codes, with their row numbers, of rows `from` up to `to` in column `col`.
pub open spec fn codes_between(rows: Seq<Vec<Cell>>, col: int, from: int, to: int) -> Seq<
    (Seq<char>, nat),
>
    decreases to - from,
{
    if to <= from {
        seq![]
    } else {
        codes_between(rows, col, from, to - 1) + row_code(rows, col, to - 1)
    }
}

/// The portal address a cell mentions.
pub open spec fn cell_address(c: Cell) -> Option<Seq<char>> {
    match c {
        Cell::Text(t) => portal_address(t@),
        _ => None,
    }
}

/// The first portal address in row `r` at or after column `c`.
pub open spec fn address_in_row(row: Seq<Cell>, c: int) -> Option<Seq<char>>
    decreases row.len() - c,
{
    if c < 0 || c >= row.len() {
        None
    } else {
        match cell_address(row[c]) {
            Some(u) => Some(u),
            None => address_in_row(row, c + 1),
        }
    }
}

/// The first portal address of the sheet at or after row `r`, rows in order
/// and cells left to right.
pub open spec fn address_in_rows(rows: Seq<Vec<Cell>>, r: int) -> Option<Seq<char>>
    decreases rows.len() - r,
{
    if r < 0 || r >= rows.len() {
        None
    } else {
        match address_in_row(rows[r]@, 0) {
            Some(u) => Some(u),
            None => address_in_rows(rows, r + 1),
        }
    }
}

fn header_cell(c: &Cell) -> (r: bool)
    ensures
        r == is_header_cell(*c),
{
    match c {
        Cell::Text(t) => {
            let upper = uppercase(t.as_str());
            contains(upper.as_str(), "MÃ TRA CỨU")
        },
        _ => false,
    }
}

fn find_header(rows: &Vec<Vec<Cell>>) -> (r: Option<(usize, usize)>)
    ensures
        match r {
            Some((h, c)) => is_header_row(rows@, h as int) && is_header_col(
                rows@[h as int]@,
                c as int,
            ),
            None => !exists|h: int| is_header_row(rows@, h),
        },
{
    let mut h: usize = 0;
    while h < rows.len()
        invariant
            h <= rows@.len(),
            forall|k: int| 0 <= k < h ==> !row_has_header(#[trigger] rows@[k]@),
        decreases rows@.len() - h,
    {
        let row = &rows[h];
        let mut found: Option<usize> = None;
        let mut c: usize = 0;
        while c < row.len()
            invariant
                c <= row@.len(),
                match found {
                    Some(f) => f < c && is_header_cell(row@[f as int]) && forall|k: int|
                        f < k < c ==> !is_header_cell(#[trigger] row@[k]),
                    None => forall|k: int| 0 <= k < c ==> !is_header_cell(#[trigger] row@[k]),
                },
            decreases row@.len() - c,
        {
            if header_cell(&row[c]) {
                found = Some(c);
            }
            c = c + 1;
        }
        match found {
            Some(f) => {
                return Some((h, f));
            },
            None => {},
        }
        h = h + 1;
    }
    assert forall|k: int| !is_header_row(rows@, k) by {
        if 0 <= k < rows@.len() {
            assert(!row_has_header(rows@[k]@));
        }
    }
    None
}

proof fn lemma_header_position(rows: Seq<Vec<Cell>>, h: int, c: int)
    requires
        is_header_row(rows, h),
        is_header_col(rows[h]@, c),
    ensures
        header_position(rows) == Some((h, c)),
{
    let h2 = choose|h2: int| is_header_row(rows, h2);
    assert(is_header_row(rows, h2));
    if h2 < h {
        assert(!row_has_header(rows[h2]@));
    } else if h < h2 {
        assert(!row_has_header(rows[h]@));
    }
    let c2 = choose|c2: int| is_header_col(rows[h]@, c2);
    assert(is_header_col(rows[h]@, c2));
    if c2 < c {
        assert(!is_header_cell(rows[h]@[c]));
    } else if c < c2 {
        assert(!is_header_cell(rows[h]@[c2]));
    }
}

fn first_address(rows: &Vec<Vec<Cell>>) -> (r: Option<String>)
    ensures
        match r {
            Some(u) => address_in_rows(rows@, 0) == Some(u@),
            None => address_in_rows(rows@, 0) is None,
        },
{
    let mut h: usize = 0;
    while h < rows.len()
        invariant
            h <= rows@.len(),
            address_in_rows(rows@, 0) == address_in_rows(rows@, h as int),
        decreases rows@.len() - h,
    {
        let row = &rows[h];
        let mut c: usize = 0;
        while c < row.len()
            invariant
                h < rows@.len(),
                c <= row@.len(),
                row@ == rows@[h as int]@,
                address_in_rows(rows@, 0) == address_in_rows(rows@, h as int),
                address_in_row(row@, 0) == address_in_row(row@, c as int),
            decreases row@.len() - c,
        {
            match &row[c] {
                Cell::Text(t) => {
                    match extract_vnpt_url(t.as_str()) {
                        Some(u) => {
                            assert(address_in_row(row@, c as int) == Some(u@));
                            return Some(u);
                        },
                        None => {},
                    }
                },
                _ => {},
            }
            assert(address_in_row(row@, c as int) == address_in_row(row@, c + 1));
            c = c + 1;
        }
        assert(address_in_rows(rows@, h as int) == address_in_rows(rows@, h + 1));
        h = h + 1;
    }
    None
}

/// Reads a worksheet, given as its rows of cells: finds the code column under
/// its header, collects the valid codes below it, each with a fresh identifier
/// and its one-based row number, and picks up the first portal address that
/// any cell mentions.
pub fn scan_sheet(rows: &Vec<Vec<Cell>>, sheet_name: String) -> (r: Result<
    ExcelParseResult,
    AppError,
>)
    ensures
        header_position(rows@) is None <==> r is Err,
        r matches Err(e) ==> e matches AppError::ExcelError(m)
            && m@ == "Could not find column 'MÃ TRA CỨU' in Excel file"@,
        r matches Ok(res) ==> {
            let (h, c) = header_position(rows@)->0;
            let codes = codes_between(rows@, c, h + 1, rows@.len() as int);
            &&& res.invoices@.len() == codes.len()
            &&& forall|i: int|
                0 <= i < codes.len() ==> (#[trigger] res.invoices@[i]).code@ == codes[i].0
                    && res.invoices@[i].row_number == codes[i].1
            &&& match res.detected_url {
                Some(u) => address_in_rows(rows@, 0) == Some(u@),
                None => address_in_rows(rows@, 0) is None,
            }
            &&& res.total_rows == rows@.len()
            &&& res.sheet_name == sheet_name
        },
{
    let (header, col) = match find_header(rows) {
        Some(p) => p,
        None => {
            return Err(
                AppError::ExcelError(
                    String::from_str("Could not find column 'MÃ TRA CỨU' in Excel file"),
                ),
            );
        },
    };
    proof {
        lemma_header_position(rows@, header as int, col as int);
    }
    let mut invoices: Vec<InvoiceCode> = Vec::new();
    let n = rows.len();
    assert(header < n);
    let mut r: usize = header + 1;
    while r < rows.len()
        invariant
            header < rows@.len(),
            header + 1 <= r <= rows@.len(),
            invoices@.len() == codes_between(rows@, col as int, header + 1, r as int).len(),
            forall|i: int|
                0 <= i < invoices@.len() ==> (#[trigger] invoices@[i]).code@ == codes_between(
                    rows@,
                    col as int,
                    header + 1,
                    r as int,
                )[i].0 && invoices@[i].row_number == codes_between(
                    rows@,
                    col as int,
                    header + 1,
                    r as int,
                )[i].1,
        decreases rows@.len() - r,
    {
        let ghost before = codes_between(rows@, col as int, header + 1, r as int);
        let row = &rows[r];
        if col < row.len() {
            let code: Option<String> = match &row[col] {
                Cell::Text(t) => Some(trim(t.as_str(), false)),
                Cell::Number(t) => Some(t.clone()),
                Cell::Other => None,
            };
            match code {
                Some(code) => {
                    if is_valid_invoice_code(code.as_str()) {
                        let id = new_invoice_id();
                        invoices.push(InvoiceCode { id, code, row_number: r + 1 });
                    }
                },
                None => {},
            }
        }
        proof {
            let after = codes_between(rows@, col as int, header + 1, r + 1);
            assert(after == before + row_code(rows@, col as int, r as int));
        }
        r = r + 1;
    }
    let detected_url = first_address(rows);
    Ok(ExcelParseResult { invoices, detected_url, total_rows: rows.len(), sheet_name })
}

} // verus!
