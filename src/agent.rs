//! The client that made a request, as far as its headers say.

use vstd::prelude::*;

verus! {

/// The `User-Agent` a client sent, if any.
pub struct UserAgent {
    pub ua: Option<String>,
}

impl UserAgent {
    /// The identity carried by the value of a `User-Agent` header; a missing
    /// header is an ordinary, anonymous client.
    pub fn from_header(header: Option<&str>) -> (r: UserAgent)
        ensures
            header is None ==> r.ua is None,
            header matches Some(h) ==> r.ua matches Some(u) && u@ == h@,
    {
        match header {
            Some(h) => UserAgent { ua: Some(h.to_owned()) },
            None => UserAgent { ua: None },
        }
    }
}

} // verus!
