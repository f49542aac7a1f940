//! Construction of universes from externally fetched flat records.

pub mod rpc;
