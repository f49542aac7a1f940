//! neweden is a library for solar-system information, wayfinding and
//! range queries over a fixed universe topology: a directed graph of
//! systems connected by stargates, jump bridges and wormholes.
//!
//! The graph is built once from flat system and connection records,
//! optionally wrapped by a non-mutating overlay that adds transient
//! edges, and queried through the pathfinding and range APIs.

pub mod builder;
pub mod laws;
pub mod navigation;
pub mod rules;
pub mod source;
pub mod types;

pub use builder::ExtendedUniverseBuilder;
pub use builder::UniverseBuilder;
pub use types::AdjacentMap;
pub use types::Au;
pub use types::BridgeType;
pub use types::Connection;
pub use types::ConnectionType;
pub use types::Coordinate;
pub use types::ExtendedUniverse;
pub use types::Galaxy;
pub use types::JumpdriveShip;
pub use types::JumpdriveSkills;
pub use types::Kilometers;
pub use types::Lightyears;
pub use types::Meters;
pub use types::Navigatable;
pub use types::Security;
pub use types::SecurityClass;
pub use types::StargateType;
pub use types::System;
pub use types::SystemClass;
pub use types::SystemId;
pub use types::SystemMap;
pub use types::Universe;
pub use types::WormholeType;
