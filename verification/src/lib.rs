//! `connchk` decides and reports whether a declared set of network endpoints,
//! plain TCP sockets and HTTP(S) URLs, can be reached.
//!
//! The library holds everything about a run except the network itself. For each
//! target it says which operation has to be performed, judges what came back,
//! and words the result; for a whole set it records the results and lists the
//! report lines in the order in which the targets were declared. A caller
//! performs the operations, in any order and on as many threads as it likes,
//! and hands back what it saw.

pub mod probe;
pub mod report;
pub mod resources;
pub mod target;
pub mod text;

pub use probe::{CheckFailure, Probe, Reply};
pub use report::Outcome;
pub use target::{HttpOptions, NetworkResources, ResType, Resource};
