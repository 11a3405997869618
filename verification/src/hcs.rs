//! The identity of the virtual machine, from the host's list of compute
//! systems.

use vstd::prelude::*;
use vstd::string::StringExecFns;
use crate::resolver::{snapshot, ResolutionError};

verus! {

/// The owner under which the host runs the virtual machine that this crate
/// looks for.
pub const WSL_OWNER: &'static str = "WSL";

/// The query that asks the host for the compute systems of `owner`.
pub open spec fn compute_system_query_text(owner: Seq<char>) -> Seq<char> {
    "{\"Owners\": [\""@ + owner + "\"]}"@
}

/// Writes the query document that selects the compute systems of one owner.
/// The owner is put between the quotes as it stands.
pub fn compute_system_query(owner: &str) -> (r: String)
    ensures
        r@ == compute_system_query_text(owner@),
{
    let mut query = String::from_str("{\"Owners\": [\"");
    query.append(owner);
    query.append("\"]}");
    query
}

/// The identity of the machine among the compute systems that a query
/// brought: the first one, whatever the others are.
pub open spec fn vm_identity_model(compute_systems: Option<Seq<Seq<char>>>) -> Result<
    Seq<char>,
    ResolutionError,
> {
    match compute_systems {
        Some(ids) => if ids.len() > 0 {
            Ok(ids[0])
        } else {
            Err(ResolutionError::VmNotFound)
        },
        None => Err(ResolutionError::VmNotFound),
    }
}

/// Picks the virtual machine's identity from the identities of the owner's
/// compute systems.
///
/// A query that failed and a query that brought nothing both mean that the
/// machine was not found.
pub fn get_virtual_machine_id(compute_systems: &Result<Vec<String>, String>) -> (r: Result<
    String,
    ResolutionError,
>)
    ensures
        match vm_identity_model(snapshot(*compute_systems)) {
            Ok(id) => r is Ok && r->Ok_0@ == id,
            Err(e) => r == Err::<String, ResolutionError>(e),
        },
{
    match compute_systems {
        Ok(ids) => {
            if ids.len() > 0 {
                Ok(ids[0].clone())
            } else {
                Err(ResolutionError::VmNotFound)
            }
        },
        Err(_) => Err(ResolutionError::VmNotFound),
    }
}

} // verus!
