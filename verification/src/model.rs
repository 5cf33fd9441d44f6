//! The data model shared by every part of the component service.

use vstd::prelude::*;

verus! {

/// Version number that the registry assigns to a component.
pub type ComponentVersion = u64;

/// Number of bytes in one page of WebAssembly linear memory.
pub const WASM_PAGE_SIZE: u64 = 65536;

/// Identifier of a component: the 128 bits of a UUID.
#[derive(Clone, Copy, Debug, PartialEq, Eq, Hash, Structural)]
pub struct ComponentId(pub u128);

/// Whether the executions of a component are persisted.
#[derive(Clone, Copy, Debug, PartialEq, Eq, Hash, Structural)]
pub enum ComponentType {
    Durable,
    Ephemeral,
}

impl Default for ComponentType {
    fn default() -> (r: Self)
        ensures
            r == ComponentType::Durable,
    {
        ComponentType::Durable
    }
}

/// Access rights of a file that is placed in a worker's sandbox at start.
#[derive(Clone, Copy, Debug, PartialEq, Eq, Hash, Structural)]
pub enum InitialComponentFilePermissions {
    ReadOnly,
    ReadWrite,
}

/// The key of both caches: a component and one of its versions.
#[derive(Clone, Copy, Debug, PartialEq, Eq, Hash, Structural)]
pub struct ComponentKey {
    pub component_id: ComponentId,
    pub component_version: ComponentVersion,
}

/// One linear memory of a component, in bytes.
#[derive(Clone, Copy, Debug, PartialEq, Eq, Hash, Structural)]
pub struct LinearMemory {
    pub initial: u64,
    pub maximum: Option<u64>,
}

} // verus!
