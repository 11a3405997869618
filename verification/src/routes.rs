//! The forwarding entries that send the configured subnets through the
//! interface.

use vstd::prelude::*;
use vstd::string::StringExecFns;
use crate::address::{format_ipv4, ipv4_text, octet_text, push_octet};
use crate::interface::{first_ipv4, InterfaceView, ResolvedInterface};

verus! {

/// The metric of every entry that this crate plans.
pub const ROUTE_METRIC: u32 = 1;

/// An IPv4 network that the operator wants forwarded: an address and the
/// length of its prefix.
#[derive(Clone, Copy, Debug, PartialEq, Eq, Structural)]
pub struct RouteSpec {
    pub address: u32,
    pub prefix: u8,
}

impl RouteSpec {
    /// A prefix of an IPv4 network has at most 32 bits.
    pub open spec fn is_valid(self) -> bool {
        self.prefix <= 32
    }

    /// The network in CIDR notation: the address, a slash, the prefix
    /// length.
    pub open spec fn text(self) -> Seq<char> {
        ipv4_text(self.address) + seq!['/'] + octet_text(self.prefix)
    }

    /// Writes the network in CIDR notation, as in `10.96.0.0/12`.
    pub fn to_text(&self) -> (text: String)
        ensures
            text@ == self.text(),
    {
        let mut text = format_ipv4(self.address);
        proof {
            reveal_strlit("/");
        }
        text.append("/");
        push_octet(&mut text, self.prefix);
        text
    }

    /// The network `address/prefix`, or nothing where the prefix is longer
    /// than an IPv4 address.
    pub fn new(address: u32, prefix: u8) -> (r: Option<RouteSpec>)
        ensures
            prefix <= 32 ==> r == Some(RouteSpec { address, prefix }),
            prefix > 32 ==> r is None,
    {
        if prefix <= 32 {
            Some(RouteSpec { address, prefix })
        } else {
            None
        }
    }
}

/// Who put an entry into the host's forwarding table.
#[derive(Clone, Copy, Debug, PartialEq, Eq, Structural)]
pub enum RouteOrigin {
    /// The host itself, or an agent this crate knows nothing of.
    Other,
    /// Configured by hand or by a management agent: the origin of every entry
    /// planned here, by which an operator can tell them from those the host
    /// made for itself.
    NetworkManagement,
}

/// One row of the host's forwarding table.
#[derive(Clone, Copy, Debug, PartialEq, Eq, Structural)]
pub struct ForwardEntry {
    pub destination: u32,
    pub prefix_length: u8,
    pub next_hop: u32,
    pub interface_index: u32,
    pub metric: u32,
    pub origin: RouteOrigin,
}

/// The entry that forwards `route` to `next_hop` over the interface with
/// index `interface_index`.
pub open spec fn forward_entry(route: RouteSpec, next_hop: u32, interface_index: u32)
    -> ForwardEntry {
    ForwardEntry {
        destination: route.address,
        prefix_length: route.prefix,
        next_hop,
        interface_index,
        metric: ROUTE_METRIC,
        origin: RouteOrigin::NetworkManagement,
    }
}

/// The entries to write for `routes` through `interface`: one for each
/// route, in order, all with the interface's first IPv4 address as next hop.
/// An interface without an IPv4 address gets none.
pub open spec fn sync_plan(interface: InterfaceView, routes: Seq<RouteSpec>) -> Seq<ForwardEntry> {
    match first_ipv4(interface.addresses) {
        Some(next_hop) => Seq::new(
            routes.len(),
            |i: int| forward_entry(routes[i], next_hop, interface.index),
        ),
        None => Seq::empty(),
    }
}

/// Plans the forwarding entries for `routes` through `gateway`.
///
/// The caller submits each entry of the plan to the host on its own: an
/// entry that the host refuses is reported and the next one is still
/// submitted.
pub fn add_routes(gateway: &ResolvedInterface, routes: &Vec<RouteSpec>) -> (entries: Vec<
    ForwardEntry,
>)
    ensures
        entries@ == sync_plan(gateway@, routes@),
{
    let mut entries: Vec<ForwardEntry> = Vec::new();
    let next_hop: u32 = match gateway.first_ipv4() {
        Some(address) => address,
        None => { return entries; },
    };
    let mut i: usize = 0;
    while i < routes.len()
        invariant
            i <= routes.len(),
            entries@.len() == i,
            forall|k: int|
                0 <= k < i ==> #[trigger] entries@[k] == forward_entry(
                    routes@[k],
                    next_hop,
                    gateway.index,
                ),
        decreases routes.len() - i,
    {
        let route = routes[i];
        entries.push(
            ForwardEntry {
                destination: route.address,
                prefix_length: route.prefix,
                next_hop,
                interface_index: gateway.index,
                metric: ROUTE_METRIC,
                origin: RouteOrigin::NetworkManagement,
            },
        );
        i += 1;
    }
    entries
}

} // verus!
