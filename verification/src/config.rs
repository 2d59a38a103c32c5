//! Process configuration: the listen port and the backend URL.
//!
//! Both values come from the process environment; reading the environment is
//! runtime glue and happens outside the library. The library receives the raw
//! value, if any was set, and decides what the effective configuration is.

use vstd::prelude::*;

verus! {

/// Effective listen port: the value of the `PORT` variable if it was set,
/// otherwise the default `8080`.
pub fn effective_port(raw: Option<String>) -> (r: String)
    ensures
        r@ == match raw {
            Option::Some(s) => s@,
            Option::None => "8080"@,
        },
{
    match raw {
        Option::Some(s) => s,
        Option::None => String::from_str("8080"),
    }
}

/// Effective backend URL: the value of the `BACKEND_URL` variable if it was
/// set, otherwise the default `http://localhost:8080/` (the service itself
/// under the default port; operators override this for realistic tests).
pub fn effective_backend_url(raw: Option<String>) -> (r: String)
    ensures
        r@ == match raw {
            Option::Some(s) => s@,
            Option::None => "http://localhost:8080/"@,
        },
{
    match raw {
        Option::Some(s) => s,
        Option::None => String::from_str("http://localhost:8080/"),
    }
}

/// The address the server binds: all interfaces, at the given port.
pub fn listen_addr(port: &str) -> (r: String)
    ensures
        r@ == "0.0.0.0:"@ + port@,
{
    let prefix = String::from_str("0.0.0.0:");
    prefix.concat(port)
}

} // verus!
