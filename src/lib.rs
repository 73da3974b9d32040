//! Introspection of a foreign process's memory: wildcard signature scanning,
//! decoding of a managed runtime's class metadata, and a walk over its class
//! dictionary, all over copies of remote memory held in a `MemoryImage`.

pub mod memory;
pub mod processes;
pub mod sig;
pub mod sdk;
pub mod dictionary;
pub mod offsets;
pub mod java;
pub mod game;
