//! The sending side of HTTP transfer: where an upload goes.
use vstd::prelude::*;
use crate::text::push_text;
use crate::number::{decimal, decimal_spec};

verus! {

/// The client that uploads a file to a receiving service.
pub struct HttpClient;

impl HttpClient {
    /// The upload address of the service at `ip` and `port`:
    /// `http://<ip>:<port>/upload`.
    pub fn upload_url(ip: &str, port: u16) -> (r: String)
        ensures
            r@ == "http://"@ + ip@ + ":"@ + decimal_spec(port as nat) + "/upload"@,
    {
        let mut r = String::from_str("http://");
        push_text(&mut r, ip);
        push_text(&mut r, ":");
        let p = decimal(port as u64);
        push_text(&mut r, p.as_str());
        push_text(&mut r, "/upload");
        r
    }
}

} // verus!
