//! Decisions of the QUIC client.
use vstd::prelude::*;

verus! {

/// The name the server's certificate is checked against: the configured
/// hostname if there is one, otherwise the text of the server's IP address.
pub fn server_name_to_verify(remote_hostname_match: Option<String>, remote_ip_text: String) -> (name:
    String)
    ensures
        name@ == match remote_hostname_match {
            Some(h) => h@,
            None => remote_ip_text@,
        },
{
    match remote_hostname_match {
        Some(h) => h,
        None => remote_ip_text,
    }
}

} // verus!
