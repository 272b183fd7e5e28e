//! Making HTTP errors understandable.
use vstd::prelude::*;
use vstd::string::StringExecFns;

use crate::chars::{chars_of, trim, trimmed};

verus! {

/// The status codes for which a clarification is given: 400, 401, 403, 429 and
/// the server errors from 500 to 505.
pub open spec fn is_clarified(status: u16) -> bool {
    status == 429 || status == 401 || status == 403 || status == 400 || (500 <= status <= 505)
}

/// The clarification given for a status code that has one.
pub open spec fn spec_clarification(status: u16) -> Seq<char> {
    if status == 429 {
        "This usually means you've hit a rate limit, run out of quota/credits, or do not have access to this resource/model in your current plan."@
    } else if status == 401 {
        "This usually means your API key is invalid or expired."@
    } else if status == 403 {
        "This usually means you do not have permission to access this resource."@
    } else if status == 400 {
        "This might be an error on our side. If the problem persists, please file an issue on GitHub."@
    } else {
        "A server error occurred. This is likely a temporary issue with the provider."@
    }
}

/// The message `enrich_http_error` builds: the original message, then the body
/// of the response where it is not blank, then the clarification where there is one.
pub open spec fn spec_enriched(status: u16, original: Seq<char>, body: Option<Seq<char>>) -> Seq<
    char,
> {
    let with_body = match body {
        Some(b) => if trim(b).len() > 0 {
            original + "\n\nResponse: "@ + b
        } else {
            original
        },
        None => original,
    };
    if is_clarified(status) {
        with_body + "\n\nNote: "@ + spec_clarification(status)
    } else {
        with_body
    }
}

fn clarification(status: u16) -> (r: &'static str)
    requires
        is_clarified(status),
    ensures
        r@ == spec_clarification(status),
{
    if status == 429 {
        "This usually means you've hit a rate limit, run out of quota/credits, or do not have access to this resource/model in your current plan."
    } else if status == 401 {
        "This usually means your API key is invalid or expired."
    } else if status == 403 {
        "This usually means you do not have permission to access this resource."
    } else if status == 400 {
        "This might be an error on our side. If the problem persists, please file an issue on GitHub."
    } else {
        "A server error occurred. This is likely a temporary issue with the provider."
    }
}

/// Adds to an HTTP error message the body of the response, where it is not
/// blank, and a clarification of the status code, where one is known.
pub fn enrich_http_error(status: u16, original: &str, body: Option<&str>) -> (r: String)
    ensures
        r@ == spec_enriched(
            status,
            original@,
            match body {
                Some(b) => Some(b@),
                None => None,
            },
        ),
{
    let mut result = String::from_str(original);
    if let Some(body) = body {
        let chars = chars_of(body);
        if trimmed(&chars).len() > 0 {
            result.append("\n\nResponse: ");
            result.append(body);
        }
    }
    let clarified = status == 429 || status == 401 || status == 403 || status == 400 || (500
        <= status && status <= 505);
    if clarified {
        result.append("\n\nNote: ");
        result.append(clarification(status));
    }
    result
}

} // verus!
