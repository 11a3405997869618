//! Finding the interface that fronts the virtual machine.
//!
//! Two ways lead to an interface: by the name the operator gave, or by
//! discovery, from the machine's identity over its endpoint's gateway
//! address to the interface that carries that address. Every function here
//! works on snapshots that the caller took from the host; none of them keeps
//! anything between calls.

use vstd::prelude::*;
use crate::address::{parse_ipv4, parse_ipv4_model, IpAddress};
use crate::hcn::{Endpoint, EndpointView};
use crate::hcs::{get_virtual_machine_id, vm_identity_model};
use crate::interface::{InterfaceView, ResolvedInterface};
use crate::search::{first_match, lemma_first_match_found, views};

verus! {

/// Why no interface was found. Each of these is retried at the next tick;
/// none ends the session.
#[derive(Clone, Copy, Debug, PartialEq, Eq, Structural)]
pub enum ResolutionError {
    /// The host knows no virtual machine of the owner asked for.
    VmNotFound,
    /// A host query failed.
    QueryFailed,
    /// No endpoint belongs to the virtual machine.
    NoEndpoint,
    /// The endpoint's gateway address is not an IPv4 address.
    InvalidGateway,
    /// No local interface carries the gateway address.
    NoMatchingInterface,
    /// No local interface has the name asked for.
    InterfaceNotFound,
}

/// What a host query brought, as plain values: `None` where it failed.
pub open spec fn snapshot<T: View>(listing: Result<Vec<T>, String>) -> Option<Seq<T::V>> {
    match listing {
        Ok(rows) => Some(views(rows@)),
        Err(_) => None,
    }
}

/// Holds of an interface called `name`.
pub open spec fn is_named(name: Seq<char>) -> spec_fn(InterfaceView) -> bool {
    |i: InterfaceView| i.name == name
}

/// Holds of an endpoint that the machine `vm_id` owns.
pub open spec fn is_owned_by(vm_id: Seq<char>) -> spec_fn(EndpointView) -> bool {
    |e: EndpointView| e.virtual_machine == vm_id
}

/// Holds of an interface that has the IPv4 address `gateway` bound.
pub open spec fn carries(gateway: u32) -> spec_fn(InterfaceView) -> bool {
    |i: InterfaceView| i.addresses.contains(IpAddress::V4(gateway))
}

/// Where in the interface table the interface called `name` stands: the
/// first of that name, `InterfaceNotFound` where there is none, and
/// `QueryFailed` where the table could not be read.
pub open spec fn resolve_by_name_model(name: Seq<char>, interfaces: Option<Seq<InterfaceView>>)
    -> Result<int, ResolutionError> {
    match interfaces {
        None => Err(ResolutionError::QueryFailed),
        Some(table) => match first_match(table, is_named(name)) {
            Some(i) => Ok(i),
            None => Err(ResolutionError::InterfaceNotFound),
        },
    }
}

/// The gateway address of the first endpoint that `vm_id` owns.
pub open spec fn gateway_model(vm_id: Seq<char>, endpoints: Option<Seq<EndpointView>>) -> Result<
    u32,
    ResolutionError,
> {
    match endpoints {
        None => Err(ResolutionError::QueryFailed),
        Some(listing) => match first_match(listing, is_owned_by(vm_id)) {
            None => Err(ResolutionError::NoEndpoint),
            Some(i) => match parse_ipv4_model(listing[i].gateway_address) {
                Some(gateway) => Ok(gateway),
                None => Err(ResolutionError::InvalidGateway),
            },
        },
    }
}

/// The name of the first interface that carries `gateway`.
pub open spec fn carrier_model(gateway: u32, interfaces: Option<Seq<InterfaceView>>) -> Result<
    Seq<char>,
    ResolutionError,
> {
    match interfaces {
        None => Err(ResolutionError::QueryFailed),
        Some(table) => match first_match(table, carries(gateway)) {
            Some(i) => Ok(table[i].name),
            None => Err(ResolutionError::NoMatchingInterface),
        },
    }
}

/// Discovery from end to end: the machine, its endpoint's gateway, the
/// interface that carries it. The first step that fails decides the error.
pub open spec fn auto_resolve_model(
    compute_systems: Option<Seq<Seq<char>>>,
    endpoints: Option<Seq<EndpointView>>,
    interfaces: Option<Seq<InterfaceView>>,
) -> Result<Seq<char>, ResolutionError> {
    match vm_identity_model(compute_systems) {
        Err(e) => Err(e),
        Ok(vm_id) => match gateway_model(vm_id, endpoints) {
            Err(e) => Err(e),
            Ok(gateway) => carrier_model(gateway, interfaces),
        },
    }
}

/// Looks an interface up by name in a snapshot of the interface table.
///
/// The first interface with that name is returned; the host is not expected
/// to report two.
#[verifier::loop_isolation(false)]
pub fn get_interface_address<'a>(
    interface_name: &String,
    interfaces: &'a Result<Vec<ResolvedInterface>, String>,
) -> (r: Result<&'a ResolvedInterface, ResolutionError>)
    ensures
        match resolve_by_name_model(interface_name@, snapshot(*interfaces)) {
            Ok(i) => r == Ok::<&ResolvedInterface, ResolutionError>(&interfaces->Ok_0@[i]),
            Err(e) => r == Err::<&ResolvedInterface, ResolutionError>(e),
        },
{
    let rows = match interfaces {
        Ok(rows) => rows,
        Err(_) => { return Err(ResolutionError::QueryFailed); },
    };
    let ghost table = views(rows@);
    let ghost named = is_named(interface_name@);
    let mut i: usize = 0;
    while i < rows.len()
        invariant
            i <= rows.len(),
            forall|j: int| 0 <= j < i ==> !named(#[trigger] table[j]),
        decreases rows.len() - i,
    {
        if rows[i].name == *interface_name {
            proof {
                lemma_first_match_found(table, named, i as int);
            }
            return Ok(&rows[i]);
        }
        i += 1;
    }
    Err(ResolutionError::InterfaceNotFound)
}

/// Finds the gateway address of the virtual machine `vm_id`: that of the
/// first endpoint it owns, in the order the host listed them.
#[verifier::loop_isolation(false)]
pub fn gateway_address(vm_id: &String, endpoints: &Result<Vec<Endpoint>, String>) -> (r: Result<
    u32,
    ResolutionError,
>)
    ensures
        r == gateway_model(vm_id@, snapshot(*endpoints)),
{
    let rows = match endpoints {
        Ok(rows) => rows,
        Err(_) => { return Err(ResolutionError::QueryFailed); },
    };
    let ghost listing = views(rows@);
    let ghost owned = is_owned_by(vm_id@);
    let mut i: usize = 0;
    while i < rows.len()
        invariant
            i <= rows.len(),
            forall|j: int| 0 <= j < i ==> !owned(#[trigger] listing[j]),
        decreases rows.len() - i,
    {
        if rows[i].virtual_machine == *vm_id {
            proof {
                lemma_first_match_found(listing, owned, i as int);
            }
            return match parse_ipv4(rows[i].gateway_address.as_str()) {
                Some(gateway) => Ok(gateway),
                None => Err(ResolutionError::InvalidGateway),
            };
        }
        i += 1;
    }
    Err(ResolutionError::NoEndpoint)
}

/// Whether `interface` has the IPv4 address `gateway` bound.
fn has_address(interface: &ResolvedInterface, gateway: u32) -> (r: bool)
    ensures
        r == carries(gateway)(interface@),
{
    let mut k: usize = 0;
    while k < interface.addresses.len()
        invariant
            k <= interface.addresses.len(),
            forall|j: int| 0 <= j < k ==> interface.addresses@[j] != IpAddress::V4(gateway),
        decreases interface.addresses.len() - k,
    {
        match interface.addresses[k] {
            IpAddress::V4(bound) => {
                if bound == gateway {
                    return true;
                }
            },
            IpAddress::V6(_) => {},
        }
        k += 1;
    }
    false
}

/// Finds the interface that has the gateway address bound and returns its
/// name: the first such interface in the order of the table.
#[verifier::loop_isolation(false)]
pub fn interface_with_address(gateway: u32, interfaces: &Result<Vec<ResolvedInterface>, String>)
    -> (r: Result<String, ResolutionError>)
    ensures
        match carrier_model(gateway, snapshot(*interfaces)) {
            Ok(name) => r is Ok && r->Ok_0@ == name,
            Err(e) => r == Err::<String, ResolutionError>(e),
        },
{
    let rows = match interfaces {
        Ok(rows) => rows,
        Err(_) => { return Err(ResolutionError::QueryFailed); },
    };
    let ghost table = views(rows@);
    let ghost carrying = carries(gateway);
    let mut i: usize = 0;
    while i < rows.len()
        invariant
            i <= rows.len(),
            forall|j: int| 0 <= j < i ==> !carrying(#[trigger] table[j]),
        decreases rows.len() - i,
    {
        if has_address(&rows[i], gateway) {
            proof {
                lemma_first_match_found(table, carrying, i as int);
            }
            return Ok(rows[i].name.clone());
        }
        i += 1;
    }
    Err(ResolutionError::NoMatchingInterface)
}

/// Discovers the interface that fronts the virtual machine and returns its
/// name.
///
/// `compute_systems` are the identities of the owner's machines, `endpoints`
/// the host's virtual endpoints and `interfaces` its interface table, each
/// as the query brought it. The first machine is taken, then the first
/// endpoint it owns, then the first interface that carries that endpoint's
/// gateway address.
pub fn find_wsl_interface(
    compute_systems: &Result<Vec<String>, String>,
    endpoints: &Result<Vec<Endpoint>, String>,
    interfaces: &Result<Vec<ResolvedInterface>, String>,
) -> (r: Result<String, ResolutionError>)
    ensures
        match auto_resolve_model(
            snapshot(*compute_systems),
            snapshot(*endpoints),
            snapshot(*interfaces),
        ) {
            Ok(name) => r is Ok && r->Ok_0@ == name,
            Err(e) => r == Err::<String, ResolutionError>(e),
        },
{
    let vm_id = match get_virtual_machine_id(compute_systems) {
        Ok(vm_id) => vm_id,
        Err(e) => { return Err(e); },
    };
    let gateway = match gateway_address(&vm_id, endpoints) {
        Ok(gateway) => gateway,
        Err(e) => { return Err(e); },
    };
    interface_with_address(gateway, interfaces)
}

} // verus!
