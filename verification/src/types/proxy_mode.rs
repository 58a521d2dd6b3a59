use vstd::prelude::*;

verus! {

/// How the HTTP clients reach the network.
#[derive(Debug, Clone, Copy, PartialEq, Eq, Structural)]
pub enum ProxyMode {
    System,
    NoProxy,
    Custom,
}

impl Default for ProxyMode {
    fn default() -> (mode: Self)
        ensures
            mode == ProxyMode::System,
    {
        ProxyMode::System
    }
}

} // verus!
