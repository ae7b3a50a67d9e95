//! What is sent to the captcha-reading service, and how its answer is read.
use vstd::prelude::*;
use crate::error::AppError;
use crate::text::{strip, trim};

verus! {

/// The service that reads captcha images.
pub const SOLVER_ENDPOINT: &'static str = "https://api.openai.com/v1/chat/completions";

/// The model asked to read the captcha.
pub const SOLVER_MODEL: &'static str = "gpt-4o-mini";

/// The instruction sent with each captcha image.
pub const SOLVER_PROMPT: &'static str = "Please extract the text from this captcha image. Return ONLY the captcha text, nothing else. No explanations, no quotes, just the raw text. The captcha usually contains 4 alphanumeric characters.";

/// The longest answer asked of the service, in tokens.
pub const SOLVER_MAX_TOKENS: u32 = 100;

/// The standard, padded Base64 text of a byte string.
pub uninterp spec fn base64_of(bytes: Seq<u8>) -> Seq<char>;

/// Relies on `base64::Engine::encode` with the `STANDARD` engine, whose output
/// depends on the bytes alone; it panics only when the output's length
/// overflows or its buffer cannot be allocated, which the bound rules out.
#[verifier::external_body]
pub(crate) fn encode_base64(bytes: &Vec<u8>) -> (r: String)
    requires
        bytes@.len() <= isize::MAX / 2,
    ensures
        r@ == base64_of(bytes@),
{
    base64::Engine::encode(&base64::engine::general_purpose::STANDARD, bytes)
}

/// One request to the captcha-reading service.
pub struct SolveRequest {
    pub model: String,
    pub prompt: String,
    /// The image as a `data:` address.
    pub image_url: String,
    pub max_tokens: u32,
    /// The value of the `Authorization` header.
    pub authorization: String,
}

/// The `data:` address of a PNG image.
pub open spec fn png_data_url(image: Seq<u8>) -> Seq<char> {
    "data:image/png;base64,"@ + base64_of(image)
}

/// The request that asks the service to read `image`; refused with a
/// configuration error when no key is set.
pub fn solve_request(api_key: &str, image: &Vec<u8>) -> (r: Result<SolveRequest, AppError>)
    requires
        image@.len() <= isize::MAX / 2,
    ensures
        api_key@.len() == 0 <==> r is Err,
        r matches Err(e) ==> e matches AppError::ConfigError(m) && m@
            == "OpenAI API key is not set"@,
        r matches Ok(q) ==> {
            &&& q.model@ == SOLVER_MODEL@
            &&& q.prompt@ == SOLVER_PROMPT@
            &&& q.image_url@ == png_data_url(image@)
            &&& q.max_tokens == SOLVER_MAX_TOKENS
            &&& q.authorization@ == "Bearer "@ + api_key@
        },
{
    if api_key.unicode_len() == 0 {
        return Err(AppError::ConfigError(String::from_str("OpenAI API key is not set")));
    }
    let encoded = encode_base64(image);
    let mut image_url = String::from_str("data:image/png;base64,");
    image_url.append(encoded.as_str());
    let mut authorization = String::from_str("Bearer ");
    authorization.append(api_key);
    Ok(
        SolveRequest {
            model: String::from_str(SOLVER_MODEL),
            prompt: String::from_str(SOLVER_PROMPT),
            image_url,
            max_tokens: SOLVER_MAX_TOKENS,
            authorization,
        },
    )
}

/// The captcha text in a reply: trimmed of white space, then of quotes and
/// white space together.
pub open spec fn cleaned_answer(content: Seq<char>) -> Seq<char> {
    strip(strip(content, false), true)
}

/// The captcha text from the content of the service's first choice; a missing
/// or blank answer is a failed solve.
pub fn captcha_answer(content: Option<String>) -> (r: Result<String, AppError>)
    ensures
        match content {
            None => r matches Err(AppError::CaptchaFailed(n)) && n == 1,
            Some(c) => if cleaned_answer(c@).len() == 0 {
                r matches Err(AppError::CaptchaFailed(n)) && n == 1
            } else {
                r matches Ok(t) && t@ == cleaned_answer(c@)
            },
        },
{
    match content {
        None => Err(AppError::CaptchaFailed(1)),
        Some(c) => {
            let once = trim(c.as_str(), false);
            let cleaned = trim(once.as_str(), true);
            if cleaned.unicode_len() == 0 {
                Err(AppError::CaptchaFailed(1))
            } else {
                Ok(cleaned)
            }
        },
    }
}

} // verus!
