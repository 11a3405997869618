//! A local network interface as the host's interface table reports it.

use vstd::prelude::*;
use crate::address::IpAddress;
use crate::search::{first_match, lemma_first_match_found};

verus! {

/// One row of the host's interface table. It is read afresh for every
/// lookup: the addresses may change from one call to the next.
#[derive(Clone, Debug, PartialEq, Eq)]
pub struct ResolvedInterface {
    pub name: String,
    pub index: u32,
    pub addresses: Vec<IpAddress>,
}

/// What a [`ResolvedInterface`] holds, as plain values.
pub ghost struct InterfaceView {
    pub name: Seq<char>,
    pub index: u32,
    pub addresses: Seq<IpAddress>,
}

impl View for ResolvedInterface {
    type V = InterfaceView;

    open spec fn view(&self) -> InterfaceView {
        InterfaceView { name: self.name@, index: self.index, addresses: self.addresses@ }
    }
}

/// Holds of an IPv4 address.
pub open spec fn is_ipv4() -> spec_fn(IpAddress) -> bool {
    |a: IpAddress| a is V4
}

/// The first IPv4 address among `addresses`, in the order they are bound.
pub open spec fn first_ipv4(addresses: Seq<IpAddress>) -> Option<u32> {
    match first_match(addresses, is_ipv4()) {
        Some(i) => Some(addresses[i]->V4_0),
        None => None,
    }
}

impl ResolvedInterface {
    /// The interface's first IPv4 address, which serves as the next hop of
    /// every route sent through it.
    pub fn first_ipv4(&self) -> (r: Option<u32>)
        ensures
            r == first_ipv4(self@.addresses),
    {
        let mut i: usize = 0;
        while i < self.addresses.len()
            invariant
                i <= self.addresses.len(),
                forall|j: int| 0 <= j < i ==> !is_ipv4()(#[trigger] self.addresses@[j]),
            decreases self.addresses.len() - i,
        {
            match self.addresses[i] {
                IpAddress::V4(a) => {
                    proof {
                        lemma_first_match_found(self.addresses@, is_ipv4(), i as int);
                    }
                    return Some(a);
                },
                IpAddress::V6(_) => {},
            }
            i += 1;
        }
        None
    }
}

} // verus!
