//! Correlation utilities for outbound calls: per-request identifiers and
//! the standard headers every upstream request carries.

use crate::text::{chars_to_string, push_str_chars, push_u64_dec, sp_dec};
use vstd::prelude::*;

verus! {

/// The identifier built from a clock reading: `gw-<seconds>-<nanos>`.
pub open spec fn sp_request_id(secs: nat, nanos: nat) -> Seq<char> {
    "gw-"@ + sp_dec(secs) + "-"@ + sp_dec(nanos)
}

/// Relies on `std::time::SystemTime::now` and
/// `SystemTime::duration_since(UNIX_EPOCH)`: the seconds and subsecond
/// nanoseconds since the epoch, or zero on a clock before it.  Nothing is
/// promised of the clock's value.
#[verifier::external_body]
fn unix_time_parts() -> (u64, u32) {
    let d = std::time::SystemTime::now().duration_since(std::time::UNIX_EPOCH).unwrap_or_default();
    (d.as_secs(), d.subsec_nanos())
}

/// The request identifier for a given clock reading.
pub fn request_id_from(secs: u64, nanos: u32) -> (r: String)
    ensures
        r@ == sp_request_id(secs as nat, nanos as nat),
{
    let mut out: Vec<char> = Vec::new();
    push_str_chars(&mut out, "gw-");
    push_u64_dec(&mut out, secs);
    push_str_chars(&mut out, "-");
    push_u64_dec(&mut out, nanos as u64);
    chars_to_string(&out)
}

/// A fresh correlation identifier for logging and upstream correlation,
/// derived from the current clock reading.
pub fn generate_request_id() -> (r: String)
    ensures
        exists|s: nat, n: nat| r@ == sp_request_id(s, n),
{
    let (secs, nanos) = unix_time_parts();
    let r = request_id_from(secs, nanos);
    proof {
        assert(r@ == sp_request_id(secs as nat, nanos as nat));
    }
    r
}

/// The client identifier sent with every outbound request.
pub open spec fn sp_user_agent() -> Seq<char> {
    "irish-mcp-gateway/0.1.0"@
}

/// The standard outbound headers: the correlation identifier (the one
/// given, or a fresh one) and the fixed client identifier.  Returns the
/// header pairs and the identifier used.
pub fn add_standard_headers(request_id: Option<String>) -> (r: (Vec<(String, String)>, String))
    ensures
        match request_id {
            Some(given) => r.1@ == given@,
            None => exists|s: nat, n: nat| r.1@ == sp_request_id(s, n),
        },
        r.0@.len() == 2,
        r.0@[0].0@ == "x-request-id"@,
        r.0@[0].1@ == r.1@,
        r.0@[1].0@ == "user-agent"@,
        r.0@[1].1@ == sp_user_agent(),
{
    let rid = match request_id {
        Some(g) => g,
        None => generate_request_id(),
    };
    let mut pairs: Vec<(String, String)> = Vec::new();
    pairs.push((String::from_str("x-request-id"), rid.clone()));
    pairs.push((String::from_str("user-agent"), String::from_str("irish-mcp-gateway/0.1.0")));
    (pairs, rid)
}

} // verus!
