//! Recognising the totem among mDNS services and building the URL of its
//! status endpoint from the resolved address.
use vstd::prelude::*;
use crate::text::{decimal, has_infix, contains, owned, push_decimal};

verus! {

broadcast use vstd::string::group_string_axioms;

/// The mDNS service type that the totem announces.
pub open spec fn service_name() -> Seq<char> {
    "_http._tcp.local."@
}

/// The host name that identifies the totem.
pub open spec fn device_hostname() -> Seq<char> {
    "focus-totem"@
}

/// The URL of the status endpoint at `ip` and `port`; IPv6 addresses are bracketed.
pub open spec fn status_url_of(ip: Seq<char>, is_ipv6: bool, port: u16) -> Seq<char> {
    let host = if is_ipv6 {
        "["@ + ip + "]"@
    } else {
        ip
    };
    "http://"@ + host + ":"@ + decimal(port as nat) + "/status"@
}

/// The mDNS service type to browse for.
pub fn service_type() -> (r: String)
    ensures
        r@ == service_name(),
{
    owned("_http._tcp.local.")
}

/// Whether a resolved service is the totem: its full name mentions `focus-totem`.
pub fn is_totem_service(fullname: &str) -> (r: bool)
    ensures
        r == has_infix(fullname@, device_hostname()),
{
    contains(fullname, "focus-totem")
}

/// The status URL of a resolved totem.
pub fn status_url(ip: &str, is_ipv6: bool, port: u16) -> (r: String)
    ensures
        r@ == status_url_of(ip@, is_ipv6, port),
{
    let mut url = owned("http://");
    if is_ipv6 {
        url.append("[");
        url.append(ip);
        url.append("]");
    } else {
        url.append(ip);
    }
    url.append(":");
    push_decimal(&mut url, port as u128);
    url.append("/status");
    assert(url@ =~= status_url_of(ip@, is_ipv6, port));
    url
}

} // verus!
