use vstd::prelude::*;

verus! {

/// An error reported to an HTTP client.
#[derive(Debug)]
pub enum AppError {
    BadRequest(String),
    Internal(String),
}

impl AppError {
    /// The message shown to the client.
    pub fn message(&self) -> (r: String)
        ensures
            r@ == match self {
                AppError::BadRequest(m) => m@,
                AppError::Internal(m) => m@,
            },
    {
        match self {
            AppError::BadRequest(m) => m.clone(),
            AppError::Internal(m) => m.clone(),
        }
    }
}

/// The body of an echo request and of its reply.
#[derive(Debug)]
pub struct EchoPayload {
    pub text: String,
}

/// The body of the greeting reply.
#[derive(Debug)]
pub struct HelloResponse {
    pub message: String,
}

/// Whether a character is white space in Unicode's sense.
pub uninterp spec fn is_white_space(c: char) -> bool;

/// Relies on `char::is_whitespace`: the Unicode `White_Space` property of
/// the character alone.
#[verifier::external_body]
fn char_is_whitespace(c: char) -> (r: bool)
    ensures
        r == is_white_space(c),
{
    c.is_whitespace()
}

/// Whether a text holds nothing but white space (it trims to nothing).
pub open spec fn is_blank(s: Seq<char>) -> bool {
    forall|i: int| 0 <= i < s.len() ==> is_white_space(#[trigger] s[i])
}

/// Whether a text trims to nothing.
pub fn text_is_blank(s: &str) -> (r: bool)
    ensures
        r == is_blank(s@),
{
    let n = s.unicode_len();
    let mut i: usize = 0;
    while i < n
        invariant
            n == s@.len(),
            0 <= i <= n,
            forall|k: int| 0 <= k < i ==> is_white_space(#[trigger] s@[k]),
        decreases n - i,
    {
        if !char_is_whitespace(s.get_char(i)) {
            return false;
        }
        i = i + 1;
    }
    true
}

/// The message of a rejected echo.
pub open spec fn empty_text_message() -> Seq<char> {
    "text must not be empty"@
}

/// Checks an echo request: a text that trims to nothing is a bad request;
/// any other payload comes back unchanged.
pub fn echo_payload(payload: EchoPayload) -> (r: Result<EchoPayload, AppError>)
    ensures
        match r {
            Ok(p) => !is_blank(payload.text@) && p == payload,
            Err(AppError::BadRequest(m)) => is_blank(payload.text@) && m@ == empty_text_message(),
            Err(AppError::Internal(_)) => false,
        },
{
    if text_is_blank(payload.text.as_str()) {
        return Err(AppError::BadRequest(String::from_str("text must not be empty")));
    }
    Ok(payload)
}

/// The greeting reply.
pub fn hello_response() -> (r: HelloResponse)
    ensures
        r.message@ == "hello from axum"@,
{
    HelloResponse { message: String::from_str("hello from axum") }
}

} // verus!
