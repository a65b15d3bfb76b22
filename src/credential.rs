//! The API-key check: the request that is sent for a key, and how the
//! service's answer is read. Sending the request is left to the caller.

use vstd::prelude::*;

verus! {

/// What `str::trim` returns for a text.
pub uninterp spec fn trimmed(s: Seq<char>) -> Seq<char>;

/// Relies on `str::trim`: the text without its leading and trailing
/// whitespace.
#[verifier::external_body]
fn trim_text<'a>(s: &'a str) -> (r: &'a str)
    ensures
        r@ == trimmed(s@),
{
    s.trim()
}

/// The endpoint that answers for a valid key.
pub open spec fn endpoint() -> Seq<char> {
    "https://workflowy.com/api/v1/targets"@
}

/// The request that checks a key.
pub struct ValidationRequest {
    pub url: String,
    pub authorization: String,
    pub content_type: String,
}

/// What came back for the request.
pub enum ValidationResponse {
    /// The request did not reach the service; the transport's description.
    TransportFailed(String),
    /// The service answered with this status; `reason` is the status's
    /// canonical reason phrase, `body` the response text if it could be read.
    Received { status: u16, reason: Option<String>, body: Option<String> },
}

/// The authorization header value for an already trimmed key.
pub fn bearer_credential(trimmed_key: &str) -> (r: String)
    ensures
        r@ == "Bearer "@ + trimmed_key@,
{
    let mut s = String::from_str("Bearer ");
    s.append(trimmed_key);
    s
}

/// The authorization header value for a key as the user typed it.
pub fn authorization_header(api_key: &str) -> (r: String)
    ensures
        r@ == "Bearer "@ + trimmed(api_key@),
{
    bearer_credential(trim_text(api_key))
}

/// The request that checks `api_key`: a GET of the endpoint with the trimmed
/// key as bearer token and a JSON content type.
pub fn validation_request(api_key: &str) -> (r: ValidationRequest)
    ensures
        r.url@ == endpoint(),
        r.authorization@ == "Bearer "@ + trimmed(api_key@),
        r.content_type@ == "application/json"@,
{
    ValidationRequest {
        url: String::from_str("https://workflowy.com/api/v1/targets"),
        authorization: authorization_header(api_key),
        content_type: String::from_str("application/json"),
    }
}

/// The decimal digits of `n`.
pub open spec fn decimal_of(n: nat) -> Seq<char>
    decreases n,
{
    if n < 10 {
        "0123456789"@.subrange(n as int, n as int + 1)
    } else {
        decimal_of(n / 10) + "0123456789"@.subrange((n % 10) as int, (n % 10) as int + 1)
    }
}

/// Writes `n` in decimal.
pub fn decimal(n: u16) -> (r: String)
    ensures
        r@ == decimal_of(n as nat),
    decreases n,
{
    let digits = "0123456789";
    proof {
        reveal_strlit("0123456789");
    }
    if n < 10 {
        String::from_str(digits.substring_char(n as usize, n as usize + 1))
    } else {
        let mut s = decimal(n / 10);
        s.append(digits.substring_char((n % 10) as usize, (n % 10) as usize + 1));
        s
    }
}

/// The text of an absent value: empty for a body, a fixed phrase for a reason.
pub open spec fn text_or(t: Option<String>, default: Seq<char>) -> Seq<char> {
    match t {
        Some(s) => s@,
        None => default,
    }
}

/// The message for a key that the service turned down.
pub open spec fn rejection_message(status: u16, reason: Option<String>, body: Option<String>) -> Seq<char> {
    "API error ("@ + decimal_of(status as nat) + " "@ + text_or(reason, "<unknown status code>"@)
        + "): "@ + text_or(body, ""@)
}

/// The status reports success.
pub open spec fn is_success(status: u16) -> bool {
    200 <= status < 300
}

fn push_text_or(s: &mut String, t: &Option<String>, default: &str)
    ensures
        final(s)@ == old(s)@ + text_or(*t, default@),
{
    match t {
        Some(x) => s.append(x.as_str()),
        None => s.append(default),
    }
}

/// Reads the service's answer: a success status accepts the key; any other
/// status, or a failed transport, is an error that says why.
pub fn interpret_validation(response: &ValidationResponse) -> (r: Result<bool, String>)
    ensures
        match *response {
            ValidationResponse::TransportFailed(e) => (r matches Err(m) && m@ == "Request failed: "@ + e@),
            ValidationResponse::Received { status, reason, body } => if is_success(status) {
                r == Ok::<bool, String>(true)
            } else {
                r matches Err(m) && m@ == rejection_message(status, reason, body)
            },
        },
{
    match response {
        ValidationResponse::TransportFailed(e) => {
            let mut m = String::from_str("Request failed: ");
            m.append(e.as_str());
            Err(m)
        },
        ValidationResponse::Received { status, reason, body } => {
            if 200 <= *status && *status < 300 {
                Ok(true)
            } else {
                let mut m = String::from_str("API error (");
                let code = decimal(*status);
                m.append(code.as_str());
                m.append(" ");
                push_text_or(&mut m, reason, "<unknown status code>");
                m.append("): ");
                push_text_or(&mut m, body, "");
                Err(m)
            }
        },
    }
}

/// `part` occurs in `s`.
pub open spec fn occurs_in(part: Seq<char>, s: Seq<char>) -> bool {
    exists|i: int| 0 <= i <= s.len() - part.len() && #[trigger] s.subrange(i, i + part.len()) == part
}

/// The message for a turned-down key holds the status code and the body.
pub proof fn lemma_rejection_names_status_and_body(
    status: u16,
    reason: Option<String>,
    body: Option<String>,
)
    ensures
        occurs_in(decimal_of(status as nat), rejection_message(status, reason, body)),
        occurs_in(text_or(body, ""@), rejection_message(status, reason, body)),
{
    reveal_strlit("API error (");
    let head = "API error ("@;
    let code = decimal_of(status as nat);
    let tail = " "@ + text_or(reason, "<unknown status code>"@) + "): "@;
    let b = text_or(body, ""@);
    let m = rejection_message(status, reason, body);
    assert(m =~= head + code + tail + b);
    assert(m.subrange(head.len() as int, (head.len() + code.len()) as int) =~= code);
    assert(m.subrange(m.len() - b.len(), m.len() as int) =~= b);
}

} // verus!
