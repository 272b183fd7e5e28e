//! Settings of the backend server.
use vstd::prelude::*;

verus! {

/// Options for the Mega backend.
pub struct MegaOptions {
    pub bootstrap_nodes: &'static str,
    pub ztm_agent_port: u16,
    pub http_port: u16,
}

/// The query of a search for models: the text searched.
#[derive(Debug)]
pub struct SearchQuery {
    pub q: String,
}

} // verus!
