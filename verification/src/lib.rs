//! Keeps a host's IPv4 routes pointed at the interface that currently fronts
//! a co-located virtual machine.
//!
//! The crate holds the decisions only: which interface fronts the machine,
//! when its address has changed, and which forwarding entries follow from
//! it. The caller performs the host's queries and writes, one at a time as
//! the [`wsl_monitor`] asks for them, and hands their results in as plain
//! values.
//!
//! - [`hcs`] and [`hcn`]: the machine's identity and its endpoints, from
//!   what the host's compute services answer.
//! - [`resolver`]: from the machine to the interface, or from a name to the
//!   interface.
//! - [`routes`]: the forwarding entries for an interface.
//! - [`wsl_monitor`]: the session that ties these together, tick by tick,
//!   and [`runs`]: what holds of a session over any sequence of events.
//! - [`table`]: a forwarding table to hold what was written, with what is
//!   proved of writing the same entries again and of entries refused.
//! - [`cli`] and [`installer`]: the routes as the operator types them and
//!   the command line that the service is registered with.

pub mod address;
pub mod cli;
pub mod hcn;
pub mod hcs;
pub mod installer;
pub mod interface;
pub mod resolver;
pub mod routes;
pub mod runs;
pub mod search;
pub mod table;
pub mod wsl_monitor;
