//! The connection target: the fixed synthesis endpoint with its pinned
//! client token, extended per connection with the authentication token, a
//! fixed version literal, and a fresh connection identifier.

use vstd::prelude::*;

verus! {

/// The full connection URL for one session.
pub open spec fn synthesis_url_chars(sec_ms_gec: Seq<char>, connection_id: Seq<char>) -> Seq<
    char,
> {
    "wss://speech.platform.bing.com/consumer/speech/synthesize/readaloud/edge/v1?TrustedClientToken=6A5AA1D4EAFF4E9FB37E23D68491D6F4&Sec-MS-GEC="@
        + sec_ms_gec + "&Sec-MS-GEC-Version=1-143.0.3650.139&ConnectionId="@ + connection_id
}

/// Builds the connection URL from the authentication token and the fresh
/// connection identifier.
pub fn synthesis_url(sec_ms_gec: &str, connection_id: &str) -> (r: String)
    ensures
        r@ == synthesis_url_chars(sec_ms_gec@, connection_id@),
{
    let mut s = String::from_str(
        "wss://speech.platform.bing.com/consumer/speech/synthesize/readaloud/edge/v1?TrustedClientToken=6A5AA1D4EAFF4E9FB37E23D68491D6F4&Sec-MS-GEC=",
    );
    s.append(sec_ms_gec);
    s.append("&Sec-MS-GEC-Version=1-143.0.3650.139&ConnectionId=");
    s.append(connection_id);
    s
}

} // verus!
