//! Checking a route that the operator typed.

use vstd::prelude::*;
use vstd::string::StringExecFns;
use crate::routes::RouteSpec;

verus! {

/// What the `ipnetwork` crate makes of `text` when it parses it as an IPv4
/// network: the address and the prefix length, or the message of its error.
pub uninterp spec fn ipv4_network_parse(text: Seq<char>) -> Result<(u32, u8), Seq<char>>;

/// Parses `val` with `<ipnetwork::Ipv4Network as FromStr>::from_str`.
///
/// Believed, not proved: the outcome is what [`ipv4_network_parse`] names;
/// a network that was parsed has a prefix of at most 32 bits, as every
/// `Ipv4Network` has; an error comes as the text that it displays as.
#[verifier::external_body]
fn parse_ipv4_network(val: &str) -> (r: Result<RouteSpec, String>)
    ensures
        match ipv4_network_parse(val@) {
            Ok((address, prefix)) => prefix <= 32 && r == Ok::<RouteSpec, String>(
                RouteSpec { address, prefix },
            ),
            Err(message) => r is Err && r->Err_0@ == message,
        },
{
    match val.parse::<ipnetwork::Ipv4Network>() {
        Ok(network) => Ok(RouteSpec { address: u32::from(network.ip()), prefix: network.prefix() }),
        Err(e) => Err(format!("{}", e)),
    }
}

/// What is said of a route that was typed without a prefix length.
pub open spec fn cidr_hint() -> Seq<char> {
    "Use CIDR format like 10.0.0.0/24"@
}

/// The verdict on a route typed as `val`, which parses as `parsed`: without
/// a slash it is refused with a hint at the format, whatever it parses as;
/// with one, the parser decides.
pub open spec fn validate_route_model(val: Seq<char>, parsed: Result<(u32, u8), Seq<char>>)
    -> Result<RouteSpec, Seq<char>> {
    if !val.contains('/') {
        Err(cidr_hint())
    } else {
        match parsed {
            Ok((address, prefix)) => Ok(RouteSpec { address, prefix }),
            Err(message) => Err(message),
        }
    }
}

/// Whether `val` holds a slash.
fn has_slash(val: &str) -> (r: bool)
    ensures
        r == val@.contains('/'),
{
    let mut found = false;
    for c in it: val.chars()
        invariant
            it.seq() == val@,
            found == exists|j: int| 0 <= j < it.index() && val@[j] == '/',
    {
        if c == '/' {
            found = true;
        }
    }
    found
}

/// Checks a route given on the command line and returns the network it
/// names.
///
/// A route has to be written with its prefix length, as in `10.0.0.0/24`: a
/// bare address is refused although it would parse.
pub fn validate_route(val: &str) -> (r: Result<RouteSpec, String>)
    ensures
        match validate_route_model(val@, ipv4_network_parse(val@)) {
            Ok(route) => r == Ok::<RouteSpec, String>(route) && route.is_valid(),
            Err(message) => r is Err && r->Err_0@ == message,
        },
{
    if !has_slash(val) {
        return Err(String::from_str("Use CIDR format like 10.0.0.0/24"));
    }
    parse_ipv4_network(val)
}

} // verus!
