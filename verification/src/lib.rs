//! Prefab serialization engine for an entity-component-system world.
//!
//! A prefab is a reusable description of a set of entities and their
//! components.  The library models prefab documents as self-describing
//! trees of plain values, walks them with an order-checking parser that
//! routes component payloads to a caller-supplied storage sink, keeps a
//! registry of component kinds keyed by stable UUID, round-trips cooked
//! (flattened) worlds, and produces and applies per-component diffs.

use vstd::prelude::*;

pub mod cooked;
pub mod diff;
pub mod doc;
pub mod error;
pub mod ids;
pub mod parse;
pub mod registry;
pub mod world;

pub use cooked::CookedPrefab;
pub use diff::DiffPayload;
pub use diff::DiffSingleResult;
pub use doc::Node;
pub use error::FieldName;
pub use error::ParseCause;
pub use error::PrefabError;
pub use ids::ComponentTypeUuid;
pub use ids::EntityUuid;
pub use ids::PrefabUuid;
pub use ids::UuidValue;
pub use parse::parse_prefab_calls;
pub use parse::CallRecord;
pub use parse::PrefabDeserializer;
pub use parse::Storage;
pub use parse::StorageCall;
pub use registry::ComponentRegistration;
pub use registry::Registry;
pub use world::EntityRecord;
pub use world::World;

verus! {

/// Result of walking one structured prefab document: the document has
/// been routed to the storage sink in full.
#[derive(Debug)]
pub struct Prefab {
}

} // verus!
