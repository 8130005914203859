//! The lines that the request/response logging stage prints.

use vstd::prelude::*;

verus! {

/// `Request: <method> <path>`, printed when a request arrives.
pub fn request_log_line(method: &str, path: &str) -> (r: String)
    ensures
        r@ == "Request: "@ + method@ + " "@ + path@,
{
    let mut line = String::from_str("Request: ");
    line.append(method);
    line.append(" ");
    line.append(path);
    line
}

/// `Response: <status>`, printed when the response is ready.
pub fn response_log_line(status: &str) -> (r: String)
    ensures
        r@ == "Response: "@ + status@,
{
    let mut line = String::from_str("Response: ");
    line.append(status);
    line
}

} // verus!
