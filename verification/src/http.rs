//! What is decided about a request that the application sends for its front
//! end: which method it is, and what its answer means.

use crate::models::HttpRequestOptions;
use crate::scan::text_eq;
use crate::text::{decimal, decimal_string, join, join3};
use vstd::prelude::*;

verus! {

/// The request methods that the application sends.
#[derive(Clone, Copy, Debug, PartialEq, Eq, Structural)]
pub enum HttpMethod {
    Get,
    Post,
    Put,
    Delete,
    Patch,
}

/// The method that a text names, in capital letters.
pub open spec fn method_named(name: Seq<char>) -> Option<HttpMethod> {
    if name == "GET"@ {
        Some(HttpMethod::Get)
    } else if name == "POST"@ {
        Some(HttpMethod::Post)
    } else if name == "PUT"@ {
        Some(HttpMethod::Put)
    } else if name == "DELETE"@ {
        Some(HttpMethod::Delete)
    } else if name == "PATCH"@ {
        Some(HttpMethod::Patch)
    } else {
        None
    }
}

/// The method of a request, or why the request is refused.
pub fn request_method(options: &HttpRequestOptions) -> (result: Result<HttpMethod, String>)
    ensures
        match method_named(options.method@) {
            Some(method) => result == Ok::<HttpMethod, String>(method),
            None => result matches Err(reason) && reason@ == "Unsupported method: "@
                + options.method@,
        },
{
    let name = options.method.as_str();
    if text_eq(name, "GET") {
        Ok(HttpMethod::Get)
    } else if text_eq(name, "POST") {
        Ok(HttpMethod::Post)
    } else if text_eq(name, "PUT") {
        Ok(HttpMethod::Put)
    } else if text_eq(name, "DELETE") {
        Ok(HttpMethod::Delete)
    } else if text_eq(name, "PATCH") {
        Ok(HttpMethod::Patch)
    } else {
        Err(join("Unsupported method: ", name))
    }
}

/// Whether a request goes round the system's proxy: it does unless the
/// request says otherwise.
pub fn bypasses_proxy(options: &HttpRequestOptions) -> (bypass: bool)
    ensures
        bypass == match options.bypass_proxy {
            Some(choice) => choice,
            None => true,
        },
{
    match options.bypass_proxy {
        Some(choice) => choice,
        None => true,
    }
}

/// What the caller gets for an answer with this status and this body: the
/// body of a successful answer, and an error that names the status of any
/// other.
pub fn response_outcome(status: u16, body: String) -> (result: Result<String, String>)
    ensures
        200 <= status < 300 ==> result == Ok::<String, String>(body),
        !(200 <= status < 300) ==> (result matches Err(reason) && reason@ == "HTTP "@ + decimal(
            status as nat,
        ) + ": "@ + body@),
{
    if 200 <= status && status < 300 {
        Ok(body)
    } else {
        let code = decimal_string(status as u64);
        let head = join3("HTTP ", code.as_str(), ": ");
        Err(join(head.as_str(), body.as_str()))
    }
}

} // verus!
