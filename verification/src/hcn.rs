//! Virtual-network endpoints as the host reports them.

use vstd::prelude::*;
use crate::search::{first_match, lemma_first_match_found};

verus! {

/// One virtual-network attachment point. `virtual_machine` names the machine
/// that owns it and `gateway_address` is the address it shows on the host
/// side, as text.
#[derive(Clone, Debug, PartialEq, Eq)]
pub struct Endpoint {
    pub id: String,
    pub name: String,
    pub virtual_network: String,
    pub virtual_network_name: String,
    pub ipaddress: String,
    pub gateway_address: String,
    pub virtual_machine: String,
}

/// What an [`Endpoint`] holds, as plain values.
pub ghost struct EndpointView {
    pub id: Seq<char>,
    pub name: Seq<char>,
    pub virtual_network: Seq<char>,
    pub virtual_network_name: Seq<char>,
    pub ipaddress: Seq<char>,
    pub gateway_address: Seq<char>,
    pub virtual_machine: Seq<char>,
}

impl View for Endpoint {
    type V = EndpointView;

    open spec fn view(&self) -> EndpointView {
        EndpointView {
            id: self.id@,
            name: self.name@,
            virtual_network: self.virtual_network@,
            virtual_network_name: self.virtual_network_name@,
            ipaddress: self.ipaddress@,
            gateway_address: self.gateway_address@,
            virtual_machine: self.virtual_machine@,
        }
    }
}

/// Holds of a fetch that failed.
pub open spec fn is_failure() -> spec_fn(Result<Endpoint, String>) -> bool {
    |fetched: Result<Endpoint, String>| fetched is Err
}

/// Gathers the endpoints whose properties were fetched one by one.
///
/// One failed fetch fails the whole listing, with the message of the first
/// failure: a listing is complete or it is nothing.
pub fn list_endpoints(fetched: Vec<Result<Endpoint, String>>) -> (r: Result<Vec<Endpoint>, String>)
    ensures
        match first_match(fetched@, is_failure()) {
            Some(i) => r is Err && r->Err_0 == fetched@[i]->Err_0,
            None => r is Ok && r->Ok_0@.len() == fetched@.len() && forall|k: int|
                0 <= k < fetched@.len() ==> fetched@[k] == Ok::<Endpoint, String>(
                    #[trigger] r->Ok_0@[k],
                ),
        },
{
    let mut endpoints: Vec<Endpoint> = Vec::new();
    for item in it: fetched
        invariant
            it.seq() == fetched@,
            endpoints@.len() == it.index(),
            forall|k: int|
                0 <= k < it.index() ==> fetched@[k] == Ok::<Endpoint, String>(
                    #[trigger] endpoints@[k],
                ),
    {
        match item {
            Ok(endpoint) => {
                endpoints.push(endpoint);
            },
            Err(message) => {
                proof {
                    assert forall|j: int| 0 <= j < it.index() implies !is_failure()(
                        #[trigger] fetched@[j],
                    ) by {
                        assert(fetched@[j] == Ok::<Endpoint, String>(endpoints@[j]));
                    }
                    lemma_first_match_found(fetched@, is_failure(), it.index() as int);
                }
                return Err(message);
            },
        }
    }
    proof {
        assert forall|j: int| 0 <= j < fetched@.len() implies !is_failure()(
            #[trigger] fetched@[j],
        ) by {
            assert(fetched@[j] == Ok::<Endpoint, String>(endpoints@[j]));
        }
    }
    Ok(endpoints)
}

} // verus!
