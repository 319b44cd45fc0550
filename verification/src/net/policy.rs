//! Which URLs may be fetched: no scheme but http, https and file, and no host inside
//! the machine or its private network.

use vstd::prelude::*;
use vstd::string::*;

use crate::net::error::{NetErrorView, ObscuraNetError};
use crate::net::url::{HostView, UrlHost, UrlRecord, UrlView};
use crate::net::url;
use crate::text;

verus! {

/// Whether a scheme may be fetched at all.
pub open spec fn allowed_scheme(scheme: Seq<char>) -> bool {
    scheme == "http"@ || scheme == "https"@ || scheme == "file"@
}

/// Whether an IPv4 address is a loopback, private, link-local, broadcast or
/// documentation address.
pub open spec fn internal_v4(a: u8, b: u8, c: u8, d: u8) -> bool {
    // loopback
    ||| a == 127
    // private
    ||| a == 10
    ||| a == 172 && 16 <= b <= 31
    ||| a == 192 && b == 168
    // link-local
    ||| a == 169 && b == 254
    // broadcast
    ||| a == 255 && b == 255 && c == 255 && d == 255
    // documentation
    ||| a == 192 && b == 0 && c == 2
    ||| a == 198 && b == 51 && c == 100
    ||| a == 203 && b == 0 && c == 113
}

/// Whether an IPv6 address is the loopback address or a unicast link-local address.
pub open spec fn internal_v6(s: Seq<u16>) -> bool {
    ||| s == seq![0u16, 0u16, 0u16, 0u16, 0u16, 0u16, 0u16, 1u16]
    ||| s.len() > 0 && 0xfe80 <= s[0] <= 0xfebf
}

/// Whether a host name means the machine itself.
pub open spec fn local_name(name: Seq<char>) -> bool {
    let lower = text::lowered(name);
    ||| lower == "localhost"@
    ||| text::has_suffix(lower, ".localhost"@)
    ||| lower == "127.0.0.1"@
    ||| lower == "::1"@
}

/// The dotted text of an IPv4 address.
pub open spec fn v4_text(a: u8, b: u8, c: u8, d: u8) -> Seq<char> {
    text::decimal_text(a as nat) + "."@ + text::decimal_text(b as nat) + "."@ + text::decimal_text(
        c as nat,
    ) + "."@ + text::decimal_text(d as nat)
}

/// Why a scheme is refused.
pub open spec fn scheme_refusal(scheme: Seq<char>) -> Seq<char> {
    "Forbidden URL scheme '"@ + scheme + "' - only http, https, and file are allowed"@
}

/// Why an IPv4 address is refused.
pub open spec fn v4_refusal(a: u8, b: u8, c: u8, d: u8) -> Seq<char> {
    "Access to private/internal IP address "@ + v4_text(a, b, c, d) + " is not allowed"@
}

/// Why an IPv6 address is refused.
pub open spec fn v6_refusal(address: Seq<char>) -> Seq<char> {
    "Access to private/internal IPv6 address "@ + address + " is not allowed"@
}

/// Why a host name is refused.
pub open spec fn name_refusal(name: Seq<char>) -> Seq<char> {
    "Access to localhost domain '"@ + name + "' is not allowed"@
}

/// Whether a host may be reached, where `ip_refused` says so of an address.
pub open spec fn host_verdict(host: Option<HostView>, ip_refused: bool) -> Result<(), Seq<char>> {
    match host {
        Some(HostView::Ipv4(a, b, c, d)) => if ip_refused {
            Err(v4_refusal(a, b, c, d))
        } else {
            Ok(())
        },
        Some(HostView::Ipv6(_, t)) => if ip_refused {
            Err(v6_refusal(t))
        } else {
            Ok(())
        },
        Some(HostView::Domain(d)) => if local_name(d) {
            Err(name_refusal(d))
        } else {
            Ok(())
        },
        None => Ok(()),
    }
}

/// Whether an address is one that a navigation may not reach.
pub open spec fn internal_host(host: Option<HostView>) -> bool {
    match host {
        Some(HostView::Ipv4(a, b, c, d)) => internal_v4(a, b, c, d),
        Some(HostView::Ipv6(s, _)) => internal_v6(s),
        _ => false,
    }
}

/// Whether a URL with a scheme and a host may be fetched, where `ip_refused` says so of an
/// address.
pub open spec fn verdict_for(
    scheme: Seq<char>,
    host: Option<HostView>,
    allow_private: bool,
    ip_refused: bool,
) -> Result<(), Seq<char>> {
    if !allowed_scheme(scheme) {
        Err(scheme_refusal(scheme))
    } else if scheme == "file"@ || allow_private {
        Ok(())
    } else {
        host_verdict(host, ip_refused)
    }
}

/// Whether a URL may be fetched, where `ip_refused` says so of an address.
pub open spec fn verdict(u: UrlView, allow_private: bool, ip_refused: bool) -> Result<
    (),
    Seq<char>,
> {
    verdict_for(u.scheme, url::url_host(u.href), allow_private, ip_refused)
}

/// Whether a navigation may go to a URL with a scheme and a host.
pub open spec fn navigation_verdict_for(
    scheme: Seq<char>,
    host: Option<HostView>,
    allow_private: bool,
) -> Result<(), Seq<char>> {
    verdict_for(scheme, host, allow_private, internal_host(host))
}

/// Whether a navigation may go to a URL.
pub open spec fn navigation_verdict(u: UrlView, allow_private: bool) -> Result<(), Seq<char>> {
    navigation_verdict_for(u.scheme, url::url_host(u.href), allow_private)
}

/// The view of a verdict.
pub open spec fn verdict_view(r: Result<(), String>) -> Result<(), Seq<char>> {
    match r {
        Ok(()) => Ok(()),
        Err(e) => Err(e@),
    }
}

fn v4_string(a: u8, b: u8, c: u8, d: u8) -> (r: String)
    ensures
        r@ == v4_text(a, b, c, d),
{
    text::decimal(a as u64).concat(".").concat(text::decimal(b as u64).as_str()).concat(
        ".",
    ).concat(text::decimal(c as u64).as_str()).concat(".").concat(
        text::decimal(d as u64).as_str(),
    )
}

fn is_internal_v4(a: u8, b: u8, c: u8, d: u8) -> (r: bool)
    ensures
        r == internal_v4(a, b, c, d),
{
    let loopback: bool = a == 127;
    let private: bool = a == 10 || (a == 172 && b >= 16 && b <= 31) || (a == 192 && b == 168);
    let link_local: bool = a == 169 && b == 254;
    let broadcast: bool = a == 255 && b == 255 && c == 255 && d == 255;
    let documentation: bool = (a == 192 && b == 0 && c == 2) || (a == 198 && b == 51 && c == 100)
        || (a == 203 && b == 0 && c == 113);
    loopback || private || link_local || broadcast || documentation
}

fn is_internal_v6(s: &Vec<u16>) -> (r: bool)
    ensures
        r == internal_v6(s@),
{
    let loopback: bool = s.len() == 8 && s[0] == 0 && s[1] == 0 && s[2] == 0 && s[3] == 0 && s[4]
        == 0 && s[5] == 0 && s[6] == 0 && s[7] == 1;
    proof {
        let one = seq![0u16, 0u16, 0u16, 0u16, 0u16, 0u16, 0u16, 1u16];
        assert(loopback ==> s@ =~= one);
        assert(s@ == one ==> s@[7] == 1 && s@[0] == 0);
    }
    let link_local: bool = s.len() > 0 && s[0] >= 0xfe80 && s[0] <= 0xfebf;
    loopback || link_local
}

fn is_local_name(name: &str) -> (r: bool)
    ensures
        r == local_name(name@),
{
    let lower: String = text::to_lowercase(name);
    text::same(lower.as_str(), "localhost") || text::ends_with(lower.as_str(), ".localhost")
        || text::same(lower.as_str(), "127.0.0.1") || text::same(lower.as_str(), "::1")
}

/// Whether a URL with a scheme and a host may be fetched, where `ip_refused` says so of an
/// address.
pub fn check_host(scheme: &str, host: &Option<UrlHost>, allow_private: bool, ip_refused: bool) -> (r:
    Result<(), String>)
    ensures
        verdict_view(r) == verdict_for(scheme@, url::host_view(*host), allow_private, ip_refused),
{
    let is_file: bool = text::same(scheme, "file");
    if !text::same(scheme, "http") && !text::same(scheme, "https") && !is_file {
        return Err(
            "Forbidden URL scheme '".to_owned().concat(scheme).concat(
                "' - only http, https, and file are allowed",
            ),
        );
    }
    if is_file || allow_private {
        return Ok(());
    }
    match host {
        Some(UrlHost::Ipv4(a, b, c, d)) => {
            if ip_refused {
                return Err(
                    "Access to private/internal IP address ".to_owned().concat(
                        v4_string(*a, *b, *c, *d).as_str(),
                    ).concat(" is not allowed"),
                );
            }
        },
        Some(UrlHost::Ipv6(_, t)) => {
            if ip_refused {
                return Err(
                    "Access to private/internal IPv6 address ".to_owned().concat(
                        t.as_str(),
                    ).concat(" is not allowed"),
                );
            }
        },
        Some(UrlHost::Domain(d)) => {
            if is_local_name(d.as_str()) {
                return Err(
                    "Access to localhost domain '".to_owned().concat(d.as_str()).concat(
                        "' is not allowed",
                    ),
                );
            }
        },
        None => {},
    }
    Ok(())
}

/// The view of a verdict on a navigation.
pub open spec fn net_verdict(r: Result<(), ObscuraNetError>) -> Result<(), NetErrorView> {
    match r {
        Ok(()) => Ok(()),
        Err(e) => Err(e@),
    }
}

/// A verdict as the error that it makes.
pub open spec fn as_net_error(v: Result<(), Seq<char>>) -> Result<(), NetErrorView> {
    match v {
        Ok(()) => Ok(()),
        Err(e) => Err(NetErrorView::Network(e)),
    }
}

/// Whether a navigation may go to a URL with a scheme and a host.
pub fn check_navigation(scheme: &str, host: &Option<UrlHost>, allow_private: bool) -> (r: Result<
    (),
    ObscuraNetError,
>)
    ensures
        net_verdict(r) == as_net_error(
            navigation_verdict_for(scheme@, url::host_view(*host), allow_private),
        ),
{
    let refused: bool = match host {
        Some(UrlHost::Ipv4(a, b, c, d)) => is_internal_v4(*a, *b, *c, *d),
        Some(UrlHost::Ipv6(s, _)) => is_internal_v6(s),
        _ => false,
    };
    match check_host(scheme, host, allow_private, refused) {
        Ok(()) => Ok(()),
        Err(e) => Err(ObscuraNetError::Network(e)),
    }
}

/// Whether a navigation may go to a URL.
pub fn validate_url(url: &UrlRecord, allow_private_network: bool) -> (r: Result<
    (),
    ObscuraNetError,
>)
    ensures
        net_verdict(r) == as_net_error(navigation_verdict(url@, allow_private_network)),
{
    check_navigation(url.scheme.as_str(), &url.host(), allow_private_network)
}

/// Whether a page's script may fetch a URL. `ip_forbidden` is what the address guard
/// says of the URL's IP address, where its host is one.
pub fn validate_fetch_url(url: &UrlRecord, allow_private_network: bool, ip_forbidden: bool) -> (r:
    Result<(), String>)
    ensures
        verdict_view(r) == verdict(url@, allow_private_network, ip_forbidden),
{
    check_host(url.scheme.as_str(), &url.host(), allow_private_network, ip_forbidden)
}

} // verus!
