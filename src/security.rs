//! The response headers that harden every HTTP response of the server
//! around the client.

use vstd::prelude::*;

verus! {

/// The header names and values added to every response, each name once.
pub open spec fn security_headers() -> Seq<(Seq<char>, Seq<char>)> {
    seq![
        ("x-content-type-options"@, "nosniff"@),
        ("content-security-policy"@, csp_value()),
        ("x-frame-options"@, "DENY"@),
        ("strict-transport-security"@, "max-age=31536000; includeSubDomains; preload"@),
        ("referrer-policy"@, "strict-origin-when-cross-origin"@),
        ("permissions-policy"@, permissions_value()),
    ]
}

pub open spec fn csp_value() -> Seq<char> {
    "default-src 'self'; script-src 'self' 'unsafe-inline' 'unsafe-eval'; style-src 'self' 'unsafe-inline'; img-src 'self' data: https:; font-src 'self' data:; connect-src 'self'; frame-ancestors 'none'; base-uri 'self';"@
}

pub open spec fn permissions_value() -> Seq<char> {
    "camera=(), microphone=(), geolocation=(), payment=(), usb=(), magnetometer=(), gyroscope=()"@
}

/// Adds the security headers to responses.
#[derive(Debug, Clone, Copy)]
pub struct SecurityLayer;

fn header(name: &str, value: &str) -> (r: (String, String))
    ensures
        r.0@ == name@,
        r.1@ == value@,
{
    (String::from_str(name), String::from_str(value))
}

impl SecurityLayer {
    pub fn new() -> (r: SecurityLayer) {
        SecurityLayer
    }

    /// The headers to set on a response, in the order in which they are set.
    pub fn headers(&self) -> (r: Vec<(String, String)>)
        ensures
            r@.len() == security_headers().len(),
            forall|i: int| 0 <= i < r@.len() ==> (#[trigger] r@[i]).0@ == security_headers()[i].0
                && r@[i].1@ == security_headers()[i].1,
    {
        vec![
            header("x-content-type-options", "nosniff"),
            header(
                "content-security-policy",
                "default-src 'self'; script-src 'self' 'unsafe-inline' 'unsafe-eval'; style-src 'self' 'unsafe-inline'; img-src 'self' data: https:; font-src 'self' data:; connect-src 'self'; frame-ancestors 'none'; base-uri 'self';",
            ),
            header("x-frame-options", "DENY"),
            header("strict-transport-security", "max-age=31536000; includeSubDomains; preload"),
            header("referrer-policy", "strict-origin-when-cross-origin"),
            header(
                "permissions-policy",
                "camera=(), microphone=(), geolocation=(), payment=(), usb=(), magnetometer=(), gyroscope=()",
            ),
        ]
    }
}

} // verus!
