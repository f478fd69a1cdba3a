//! Where the service listens.
use vstd::prelude::*;

use crate::text::owned;

verus! {

/// The address the service listens on: the configured one, or
/// `127.0.0.1:8080` where none is configured.
pub fn listen_address(configured: Option<String>) -> (address: String)
    ensures
        address@ == match configured {
            Some(a) => a@,
            None => "127.0.0.1:8080"@,
        },
{
    match configured {
        Some(a) => a,
        None => owned("127.0.0.1:8080"),
    }
}

} // verus!
