//! Reading the portal's answers: error banners, and where the PDF link points.
use vstd::prelude::*;
use crate::error::AppError;
use crate::text::{contains, has_infix, occurs_at, occurs_at_exec, strip, trim};

verus! {

/// What `str::to_lowercase` makes of a text.
pub uninterp spec fn lower_of(s: Seq<char>) -> Seq<char>;

/// Relies on `str::to_lowercase`: the result depends on the characters alone.
#[verifier::external_body]
fn lowercase(s: &str) -> (r: String)
    ensures
        r@ == lower_of(s@),
{
    s.to_lowercase()
}

/// A lower-case banner text that names a wrong captcha.
pub open spec fn names_captcha_error(lowered: Seq<char>) -> bool {
    has_infix(lowered, "captcha"@) || has_infix(lowered, "sai"@) || has_infix(
        lowered,
        "không đúng"@,
    )
}

/// A banner that rejects the captcha: in lower case it names a wrong captcha.
pub open spec fn rejects_captcha(banner: Seq<char>) -> bool {
    names_captcha_error(lower_of(banner))
}

/// Whether a banner text, already in lower case, names a wrong captcha.
pub fn mentions_captcha_error(lowered: &str) -> (r: bool)
    ensures
        r == names_captcha_error(lowered@),
{
    contains(lowered, "captcha") || contains(lowered, "sai") || contains(lowered, "không đúng")
}

/// Whether the portal's error banner rejects the captcha that was sent.
pub fn is_captcha_rejection(banner: &str) -> (r: bool)
    ensures
        r == rejects_captcha(banner@),
{
    let lowered = lowercase(banner);
    mentions_captcha_error(lowered.as_str())
}

/// The banner that the portal shows, from the text of its error element:
/// none when that text is blank.
pub fn banner_from_text(text: String) -> (r: Option<String>)
    ensures
        strip(text@, false).len() == 0 <==> r is None,
        r matches Some(b) ==> b == text,
{
    let trimmed = trim(text.as_str(), false);
    if trimmed.unicode_len() == 0 {
        None
    } else {
        Some(text)
    }
}

/// Whether `s` starts with `http`.
pub open spec fn starts_with_http(s: Seq<char>) -> bool {
    occurs_at(s, "http"@, 0)
}

/// Whether `url::Url::parse` accepts a text.
pub uninterp spec fn url_parses(s: Seq<char>) -> bool;

/// The scheme that `url::Url::parse` reads from a text.
pub uninterp spec fn url_scheme(s: Seq<char>) -> Seq<char>;

/// The host that `url::Url::parse` reads from a text; empty when it has none.
pub uninterp spec fn url_host(s: Seq<char>) -> Seq<char>;

/// Relies on `url::Url::parse`, with `Url::scheme` and `Url::host_str` read off
/// the parsed address: all three depend on the text alone.
#[verifier::external_body]
fn url_origin(base: &str) -> (r: Result<(String, String), AppError>)
    ensures
        r is Ok <==> url_parses(base@),
        r matches Ok(p) ==> p.0@ == url_scheme(base@) && p.1@ == url_host(base@),
        r matches Err(e) ==> e is BrowserError,
{
    match url::Url::parse(base) {
        Ok(u) => Ok((u.scheme().to_string(), u.host_str().unwrap_or("").to_string())),
        Err(e) => Err(AppError::BrowserError(format!("Invalid base URL: {}", e))),
    }
}

/// An absolute address made of a scheme, a host and a path.
pub open spec fn origin_joined(scheme: Seq<char>, host: Seq<char>, path: Seq<char>) -> Seq<char> {
    scheme + "://"@ + host + path
}

/// `scheme://host` followed by `path`.
pub fn join_origin(scheme: &str, host: &str, path: &str) -> (r: String)
    ensures
        r@ == origin_joined(scheme@, host@, path@),
{
    let mut out = String::from_str(scheme);
    out.append("://");
    out.append(host);
    out.append(path);
    out
}

/// Where the PDF link `href` points: as it is when it starts with `http`,
/// else under the scheme and host of the portal address `base`.
pub fn download_url(href: &str, base: &str) -> (r: Result<String, AppError>)
    ensures
        starts_with_http(href@) ==> r is Ok && r->Ok_0@ == href@,
        !starts_with_http(href@) ==> (r is Ok <==> url_parses(base@)),
        !starts_with_http(href@) && url_parses(base@) ==> r->Ok_0@ == origin_joined(
            url_scheme(base@),
            url_host(base@),
            href@,
        ),
        r matches Err(e) ==> e is BrowserError,
{
    if occurs_at_exec(href, "http", 0) {
        return Ok(String::from_str(href));
    }
    match url_origin(base) {
        Ok((scheme, host)) => Ok(join_origin(scheme.as_str(), host.as_str(), href)),
        Err(e) => Err(e),
    }
}

} // verus!
