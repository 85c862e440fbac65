//! Errors raised while walking a structured prefab document.

use vstd::prelude::*;

verus! {

/// The named fields of the structured document's scopes.
#[derive(Clone, Copy, PartialEq, Eq, Structural, Debug)]
pub enum FieldName {
    /// `id` of a prefab or of an entity.
    Id,
    /// `objects` of a prefab.
    Objects,
    /// `components` of an entity.
    Components,
    /// `type` of a component.
    Type,
    /// `data` of a component.
    Data,
    /// `prefab_id` of a prefab reference.
    PrefabId,
    /// `entity_overrides` of a prefab reference.
    EntityOverrides,
    /// `entity_id` of an entity override.
    EntityId,
    /// `component_overrides` of an entity override.
    ComponentOverrides,
    /// `component_type` of a component override.
    ComponentType,
    /// `diff` of a component override.
    Diff,
    /// `world` of a cooked prefab.
    World,
}

/// Why a leaf value could not be read.
#[derive(Clone, Copy, PartialEq, Eq, Structural, Debug)]
pub enum ParseCause {
    /// A scope expected a struct with named fields.
    ExpectedFields,
    /// A sequence-valued field held something else.
    ExpectedList,
    /// A prefab object must be a tagged variant.
    ExpectedVariant,
    /// A field that holds a UUID held something else.
    InvalidUuid,
    /// A component payload held something other than its wire form.
    InvalidPayload,
}

/// Everything that can go wrong while reading a prefab document.
///
/// Any error aborts the whole call; no partial result is exposed.
#[derive(Clone, Debug)]
pub enum PrefabError {
    /// A required identifier or data key was absent in a scope.
    MissingField(FieldName),
    /// An identifier key appeared twice in one scope.
    DuplicateField(FieldName),
    /// A data field appeared before the identifier it depends on.
    FieldOrder(FieldName),
    /// A key that no scope of the document declares.
    UnknownField(String),
    /// An unrecognized prefab object discriminator.
    UnknownVariant(String),
    /// The storage sink cannot resolve this component kind.
    UnknownComponentType(crate::ids::ComponentTypeUuid),
    /// A leaf value failed to parse.
    PayloadParse(ParseCause),
    /// The storage sink returned an error.
    StorageRejected(String),
}

} // verus!
