//! Where a downloaded invoice is written: the code made safe for a file name,
//! with `.pdf`, under the download directory.
use vstd::prelude::*;
use crate::text::push_char;

verus! {

/// Characters that a file name cannot hold on common platforms.
pub open spec fn is_path_hostile(c: char) -> bool {
    c == '/' || c == '\\' || c == ':' || c == '*' || c == '?' || c == '"' || c == '<' || c == '>'
        || c == '|'
}

/// `code` with each path-hostile character replaced by `_`.
pub open spec fn sanitized(code: Seq<char>) -> Seq<char> {
    Seq::new(code.len(), |i: int| if is_path_hostile(code[i]) { '_' } else { code[i] })
}

/// The file name for an invoice code.
pub open spec fn pdf_file_name(code: Seq<char>) -> Seq<char> {
    sanitized(code) + ".pdf"@
}

/// `name` placed under directory `dir`, with one `/` between them.
pub open spec fn joined(dir: Seq<char>, name: Seq<char>) -> Seq<char> {
    if dir.len() == 0 {
        name
    } else if dir.last() == '/' {
        dir + name
    } else {
        dir.push('/') + name
    }
}

/// Where the PDF of invoice `code` is saved under `dir`.
pub open spec fn pdf_path(dir: Seq<char>, code: Seq<char>) -> Seq<char> {
    joined(dir, pdf_file_name(code))
}

/// `code` with `/ \ : * ? " < > |` each replaced by `_`.
pub fn sanitize_code(code: &str) -> (r: String)
    ensures
        r@ == sanitized(code@),
{
    let n = code.unicode_len();
    let mut out = String::new();
    let mut i: usize = 0;
    while i < n
        invariant
            n == code@.len(),
            i <= n,
            out@ =~= sanitized(code@).subrange(0, i as int),
        decreases n - i,
    {
        let c = code.get_char(i);
        if c == '/' || c == '\\' || c == ':' || c == '*' || c == '?' || c == '"' || c == '<' || c
            == '>' || c == '|' {
            push_char(&mut out, '_');
        } else {
            push_char(&mut out, c);
        }
        i = i + 1;
    }
    out
}

/// The path at which the PDF of invoice `code` is saved under `dir`.
pub fn invoice_pdf_path(dir: &str, code: &str) -> (r: String)
    ensures
        r@ == pdf_path(dir@, code@),
{
    let mut name = sanitize_code(code);
    name.append(".pdf");
    let n = dir.unicode_len();
    if n == 0 {
        name
    } else {
        let mut path = String::from_str(dir);
        if dir.get_char(n - 1) != '/' {
            push_char(&mut path, '/');
        }
        path.append(name.as_str());
        path
    }
}

} // verus!
