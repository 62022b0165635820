//! State and flags of the plain NAT daemon variant.

use vstd::prelude::*;
use std::collections::HashMap;
use crate::containers::ContainerMetadata;
use crate::port_allocator::PortAllocator;

verus! {

/// Which translation an XDP entry point applies.
#[derive(PartialEq, Eq, Structural, Clone, Copy, Debug)]
pub enum Flags {
    Snat,
    Dnat,
}

/// The daemon's state: free host ports and known containers by address.
pub struct AppState {
    pub port_allocator: PortAllocator,
    pub container_metas: HashMap<u32, ContainerMetadata>,
}

impl AppState {
    pub fn new(port_allocator: PortAllocator, container_metas: HashMap<u32, ContainerMetadata>) -> (res:
        Self)
        ensures
            res.port_allocator@ == port_allocator@,
            res.container_metas@ == container_metas@,
    {
        AppState { port_allocator, container_metas }
    }
}

} // verus!
