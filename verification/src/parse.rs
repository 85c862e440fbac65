//! The structured prefab deserializer.
//!
//! A structured prefab document is a nested, order-sensitive tree:
//! `prefab -> object -> {entity | prefab-ref} -> component | override`.
//! The walker does not build an in-memory prefab; it checks the
//! envelope and routes each leaf payload, still unread, to a storage
//! sink together with the fully qualified identifiers of its scope.
//!
//! Within every scope the identifying field must appear before the
//! data field whose meaning depends on it; a data field met first is a
//! [`PrefabError::FieldOrder`] error, a repeated identifier a
//! [`PrefabError::DuplicateField`] error, and an absent data field a
//! [`PrefabError::MissingField`] error.  Unknown keys are rejected.

use vstd::prelude::*;

use crate::doc::key_is;
use crate::doc::node_uuid;
use crate::doc::spec_node_uuid;
use crate::doc::Node;
use crate::error::FieldName;
use crate::error::ParseCause;
use crate::error::PrefabError;
use crate::ids::ComponentTypeUuid;
use crate::ids::EntityUuid;
use crate::ids::PrefabUuid;

verus! {

/// One routed leaf, holding the leaf's node in place so that the
/// storage sink can parse it with the context it alone knows.
#[derive(Debug)]
pub enum StorageCall<'a> {
    /// A component of an entity declared by this prefab.
    DeserializeComponent {
        prefab: PrefabUuid,
        entity: EntityUuid,
        component_type: ComponentTypeUuid,
        data: &'a Node,
    },
    /// An override of a component on an entity of a referenced prefab.
    ApplyComponentDiff {
        parent_prefab: PrefabUuid,
        prefab_ref: PrefabUuid,
        entity: EntityUuid,
        component_type: ComponentTypeUuid,
        diff: &'a Node,
    },
}

/// The mathematical shape of one routed leaf.
pub enum CallRecord {
    DeserializeComponent {
        prefab: PrefabUuid,
        entity: EntityUuid,
        component_type: ComponentTypeUuid,
        data: Node,
    },
    ApplyComponentDiff {
        parent_prefab: PrefabUuid,
        prefab_ref: PrefabUuid,
        entity: EntityUuid,
        component_type: ComponentTypeUuid,
        diff: Node,
    },
}

/// What one routed leaf records.
pub open spec fn call_record(c: StorageCall) -> CallRecord {
    match c {
        StorageCall::DeserializeComponent { prefab, entity, component_type, data } => {
            CallRecord::DeserializeComponent { prefab, entity, component_type, data: *data }
        },
        StorageCall::ApplyComponentDiff {
            parent_prefab,
            prefab_ref,
            entity,
            component_type,
            diff,
        } => {
            CallRecord::ApplyComponentDiff {
                parent_prefab,
                prefab_ref,
                entity,
                component_type,
                diff: *diff,
            }
        },
    }
}

/// What a sequence of routed leaves records.
pub open spec fn call_records(s: Seq<StorageCall>) -> Seq<CallRecord> {
    s.map_values(|c: StorageCall| call_record(c))
}

/// What a parse result records.
pub open spec fn result_records(r: Result<Vec<StorageCall>, PrefabError>) -> Result<
    Seq<CallRecord>,
    PrefabError,
> {
    match r {
        Ok(v) => Ok(call_records(v@)),
        Err(e) => Err(e),
    }
}

/// The whole document: a struct with fields `id`, then `objects`.
pub open spec fn spec_parse_prefab(doc: Node) -> Result<Seq<CallRecord>, PrefabError> {
    match doc {
        Node::Fields(fields) => spec_prefab_fields(fields@, None, None),
        _ => Err(PrefabError::PayloadParse(ParseCause::ExpectedFields)),
    }
}

/// The prefab scope, one field at a time.  `id` fills the identifier
/// slot; each `objects` field is walked with that identifier and its
/// routed leaves are appended; anything else is unknown.
pub open spec fn spec_prefab_fields(
    fields: Seq<(String, Node)>,
    id: Option<PrefabUuid>,
    parsed: Option<Seq<CallRecord>>,
) -> Result<Seq<CallRecord>, PrefabError>
    decreases fields.len(),
{
    if fields.len() == 0 {
        match parsed {
            Some(calls) => Ok(calls),
            None => Err(PrefabError::MissingField(FieldName::Objects)),
        }
    } else {
        let k = fields[0].0;
        let v = fields[0].1;
        if k@ == "id"@ {
            if id is Some {
                Err(PrefabError::DuplicateField(FieldName::Id))
            } else {
                match spec_node_uuid(v) {
                    Some(u) => spec_prefab_fields(fields.drop_first(), Some(u), parsed),
                    None => Err(PrefabError::PayloadParse(ParseCause::InvalidUuid)),
                }
            }
        } else if k@ == "objects"@ {
            match id {
                None => Err(PrefabError::FieldOrder(FieldName::Id)),
                Some(pid) => match spec_objects(v, pid) {
                    Ok(calls) => spec_prefab_fields(
                        fields.drop_first(),
                        id,
                        Some(
                            match parsed {
                                Some(prev) => prev + calls,
                                None => calls,
                            },
                        ),
                    ),
                    Err(e) => Err(e),
                },
            }
        } else {
            Err(PrefabError::UnknownField(k))
        }
    }
}

/// The `objects` value: a sequence of prefab objects.
pub open spec fn spec_objects(v: Node, prefab: PrefabUuid) -> Result<Seq<CallRecord>, PrefabError> {
    match v {
        Node::List(items) => spec_object_items(items@, prefab),
        _ => Err(PrefabError::PayloadParse(ParseCause::ExpectedList)),
    }
}

/// Each prefab object in order; their routed leaves concatenate.
pub open spec fn spec_object_items(items: Seq<Node>, prefab: PrefabUuid) -> Result<
    Seq<CallRecord>,
    PrefabError,
>
    decreases items.len(),
{
    if items.len() == 0 {
        Ok(Seq::empty())
    } else {
        match spec_object(items[0], prefab) {
            Ok(first) => match spec_object_items(items.drop_first(), prefab) {
                Ok(rest) => Ok(first + rest),
                Err(e) => Err(e),
            },
            Err(e) => Err(e),
        }
    }
}

/// A prefab object: the variant tag dispatches `Entity` or `PrefabRef`.
pub open spec fn spec_object(item: Node, prefab: PrefabUuid) -> Result<
    Seq<CallRecord>,
    PrefabError,
> {
    match item {
        Node::Variant(tag, payload) => {
            if tag@ == "Entity"@ {
                spec_entity(*payload, prefab)
            } else if tag@ == "PrefabRef"@ {
                spec_prefab_ref(*payload, prefab)
            } else {
                Err(PrefabError::UnknownVariant(tag))
            }
        },
        _ => Err(PrefabError::PayloadParse(ParseCause::ExpectedVariant)),
    }
}

/// An entity object: a struct with fields `id`, then `components`.
pub open spec fn spec_entity(doc: Node, prefab: PrefabUuid) -> Result<Seq<CallRecord>, PrefabError> {
    match doc {
        Node::Fields(fields) => spec_entity_fields(fields@, prefab, None, None),
        _ => Err(PrefabError::PayloadParse(ParseCause::ExpectedFields)),
    }
}

/// The entity scope.  `id` fills the identifier slot; each
/// `components` field is walked with it; every key is checked to the
/// end of the scope.
pub open spec fn spec_entity_fields(
    fields: Seq<(String, Node)>,
    prefab: PrefabUuid,
    entity: Option<EntityUuid>,
    parsed: Option<Seq<CallRecord>>,
) -> Result<Seq<CallRecord>, PrefabError>
    decreases fields.len(),
{
    if fields.len() == 0 {
        match parsed {
            Some(calls) => Ok(calls),
            None => Err(PrefabError::MissingField(FieldName::Components)),
        }
    } else {
        let k = fields[0].0;
        let v = fields[0].1;
        if k@ == "id"@ {
            if entity is Some {
                Err(PrefabError::DuplicateField(FieldName::Id))
            } else {
                match spec_node_uuid(v) {
                    Some(u) => spec_entity_fields(fields.drop_first(), prefab, Some(u), parsed),
                    None => Err(PrefabError::PayloadParse(ParseCause::InvalidUuid)),
                }
            }
        } else if k@ == "components"@ {
            match entity {
                None => Err(PrefabError::FieldOrder(FieldName::Id)),
                Some(eid) => match spec_components(v, prefab, eid) {
                    Ok(calls) => spec_entity_fields(
                        fields.drop_first(),
                        prefab,
                        entity,
                        Some(
                            match parsed {
                                Some(prev) => prev + calls,
                                None => calls,
                            },
                        ),
                    ),
                    Err(e) => Err(e),
                },
            }
        } else {
            Err(PrefabError::UnknownField(k))
        }
    }
}

/// The `components` value: a sequence of components.
pub open spec fn spec_components(v: Node, prefab: PrefabUuid, entity: EntityUuid) -> Result<
    Seq<CallRecord>,
    PrefabError,
> {
    match v {
        Node::List(items) => spec_component_items(items@, prefab, entity),
        _ => Err(PrefabError::PayloadParse(ParseCause::ExpectedList)),
    }
}

/// Each component in order.
pub open spec fn spec_component_items(
    items: Seq<Node>,
    prefab: PrefabUuid,
    entity: EntityUuid,
) -> Result<Seq<CallRecord>, PrefabError>
    decreases items.len(),
{
    if items.len() == 0 {
        Ok(Seq::empty())
    } else {
        match spec_component(items[0], prefab, entity) {
            Ok(first) => match spec_component_items(items.drop_first(), prefab, entity) {
                Ok(rest) => Ok(first + rest),
                Err(e) => Err(e),
            },
            Err(e) => Err(e),
        }
    }
}

/// A component: a struct with fields `type`, then `data`.
pub open spec fn spec_component(doc: Node, prefab: PrefabUuid, entity: EntityUuid) -> Result<
    Seq<CallRecord>,
    PrefabError,
> {
    match doc {
        Node::Fields(fields) => spec_component_fields(fields@, prefab, entity, None, None),
        _ => Err(PrefabError::PayloadParse(ParseCause::ExpectedFields)),
    }
}

/// The component scope.  Each `data` leaf is routed unread, with the
/// prefab, entity and component type of its scope; every key is
/// checked to the end of the scope.
pub open spec fn spec_component_fields(
    fields: Seq<(String, Node)>,
    prefab: PrefabUuid,
    entity: EntityUuid,
    component_type: Option<ComponentTypeUuid>,
    parsed: Option<Seq<CallRecord>>,
) -> Result<Seq<CallRecord>, PrefabError>
    decreases fields.len(),
{
    if fields.len() == 0 {
        match parsed {
            Some(calls) => Ok(calls),
            None => Err(PrefabError::MissingField(FieldName::Data)),
        }
    } else {
        let k = fields[0].0;
        let v = fields[0].1;
        if k@ == "type"@ {
            if component_type is Some {
                Err(PrefabError::DuplicateField(FieldName::Type))
            } else {
                match spec_node_uuid(v) {
                    Some(u) => spec_component_fields(
                        fields.drop_first(),
                        prefab,
                        entity,
                        Some(u),
                        parsed,
                    ),
                    None => Err(PrefabError::PayloadParse(ParseCause::InvalidUuid)),
                }
            }
        } else if k@ == "data"@ {
            match component_type {
                None => Err(PrefabError::FieldOrder(FieldName::Type)),
                Some(ct) => {
                    let one = seq![
                        CallRecord::DeserializeComponent {
                            prefab,
                            entity,
                            component_type: ct,
                            data: v,
                        },
                    ];
                    spec_component_fields(
                        fields.drop_first(),
                        prefab,
                        entity,
                        component_type,
                        Some(
                            match parsed {
                                Some(prev) => prev + one,
                                None => one,
                            },
                        ),
                    )
                },
            }
        } else {
            Err(PrefabError::UnknownField(k))
        }
    }
}

/// A prefab reference: a struct with fields `prefab_id`, then
/// `entity_overrides`.
pub open spec fn spec_prefab_ref(doc: Node, parent: PrefabUuid) -> Result<
    Seq<CallRecord>,
    PrefabError,
> {
    match doc {
        Node::Fields(fields) => spec_prefab_ref_fields(fields@, parent, None, None),
        _ => Err(PrefabError::PayloadParse(ParseCause::ExpectedFields)),
    }
}

/// The prefab reference scope; every key is checked to the end of the
/// scope.
pub open spec fn spec_prefab_ref_fields(
    fields: Seq<(String, Node)>,
    parent: PrefabUuid,
    prefab_ref: Option<PrefabUuid>,
    parsed: Option<Seq<CallRecord>>,
) -> Result<Seq<CallRecord>, PrefabError>
    decreases fields.len(),
{
    if fields.len() == 0 {
        match parsed {
            Some(calls) => Ok(calls),
            None => Err(PrefabError::MissingField(FieldName::EntityOverrides)),
        }
    } else {
        let k = fields[0].0;
        let v = fields[0].1;
        if k@ == "prefab_id"@ {
            if prefab_ref is Some {
                Err(PrefabError::DuplicateField(FieldName::PrefabId))
            } else {
                match spec_node_uuid(v) {
                    Some(u) => spec_prefab_ref_fields(fields.drop_first(), parent, Some(u), parsed),
                    None => Err(PrefabError::PayloadParse(ParseCause::InvalidUuid)),
                }
            }
        } else if k@ == "entity_overrides"@ {
            match prefab_ref {
                None => Err(PrefabError::FieldOrder(FieldName::PrefabId)),
                Some(rid) => match spec_entity_overrides(v, parent, rid) {
                    Ok(calls) => spec_prefab_ref_fields(
                        fields.drop_first(),
                        parent,
                        prefab_ref,
                        Some(
                            match parsed {
                                Some(prev) => prev + calls,
                                None => calls,
                            },
                        ),
                    ),
                    Err(e) => Err(e),
                },
            }
        } else {
            Err(PrefabError::UnknownField(k))
        }
    }
}

/// The `entity_overrides` value: a sequence of entity overrides.
pub open spec fn spec_entity_overrides(
    v: Node,
    parent: PrefabUuid,
    prefab_ref: PrefabUuid,
) -> Result<Seq<CallRecord>, PrefabError> {
    match v {
        Node::List(items) => spec_entity_override_items(items@, parent, prefab_ref),
        _ => Err(PrefabError::PayloadParse(ParseCause::ExpectedList)),
    }
}

/// Each entity override in order.
pub open spec fn spec_entity_override_items(
    items: Seq<Node>,
    parent: PrefabUuid,
    prefab_ref: PrefabUuid,
) -> Result<Seq<CallRecord>, PrefabError>
    decreases items.len(),
{
    if items.len() == 0 {
        Ok(Seq::empty())
    } else {
        match spec_entity_override(items[0], parent, prefab_ref) {
            Ok(first) => match spec_entity_override_items(items.drop_first(), parent, prefab_ref) {
                Ok(rest) => Ok(first + rest),
                Err(e) => Err(e),
            },
            Err(e) => Err(e),
        }
    }
}

/// An entity override: a struct with fields `entity_id`, then
/// `component_overrides`.
pub open spec fn spec_entity_override(doc: Node, parent: PrefabUuid, prefab_ref: PrefabUuid) -> Result<
    Seq<CallRecord>,
    PrefabError,
> {
    match doc {
        Node::Fields(fields) => spec_entity_override_fields(fields@, parent, prefab_ref, None, None),
        _ => Err(PrefabError::PayloadParse(ParseCause::ExpectedFields)),
    }
}

/// The entity override scope; every key is checked to the end of the
/// scope.
pub open spec fn spec_entity_override_fields(
    fields: Seq<(String, Node)>,
    parent: PrefabUuid,
    prefab_ref: PrefabUuid,
    entity: Option<EntityUuid>,
    parsed: Option<Seq<CallRecord>>,
) -> Result<Seq<CallRecord>, PrefabError>
    decreases fields.len(),
{
    if fields.len() == 0 {
        match parsed {
            Some(calls) => Ok(calls),
            None => Err(PrefabError::MissingField(FieldName::ComponentOverrides)),
        }
    } else {
        let k = fields[0].0;
        let v = fields[0].1;
        if k@ == "entity_id"@ {
            if entity is Some {
                Err(PrefabError::DuplicateField(FieldName::EntityId))
            } else {
                match spec_node_uuid(v) {
                    Some(u) => spec_entity_override_fields(
                        fields.drop_first(),
                        parent,
                        prefab_ref,
                        Some(u),
                        parsed,
                    ),
                    None => Err(PrefabError::PayloadParse(ParseCause::InvalidUuid)),
                }
            }
        } else if k@ == "component_overrides"@ {
            match entity {
                None => Err(PrefabError::FieldOrder(FieldName::EntityId)),
                Some(eid) => match spec_component_overrides(v, parent, prefab_ref, eid) {
                    Ok(calls) => spec_entity_override_fields(
                        fields.drop_first(),
                        parent,
                        prefab_ref,
                        entity,
                        Some(
                            match parsed {
                                Some(prev) => prev + calls,
                                None => calls,
                            },
                        ),
                    ),
                    Err(e) => Err(e),
                },
            }
        } else {
            Err(PrefabError::UnknownField(k))
        }
    }
}

/// The `component_overrides` value: a sequence of component overrides.
pub open spec fn spec_component_overrides(
    v: Node,
    parent: PrefabUuid,
    prefab_ref: PrefabUuid,
    entity: EntityUuid,
) -> Result<Seq<CallRecord>, PrefabError> {
    match v {
        Node::List(items) => spec_component_override_items(items@, parent, prefab_ref, entity),
        _ => Err(PrefabError::PayloadParse(ParseCause::ExpectedList)),
    }
}

/// Each component override in order.
pub open spec fn spec_component_override_items(
    items: Seq<Node>,
    parent: PrefabUuid,
    prefab_ref: PrefabUuid,
    entity: EntityUuid,
) -> Result<Seq<CallRecord>, PrefabError>
    decreases items.len(),
{
    if items.len() == 0 {
        Ok(Seq::empty())
    } else {
        match spec_component_override(items[0], parent, prefab_ref, entity) {
            Ok(first) => match spec_component_override_items(
                items.drop_first(),
                parent,
                prefab_ref,
                entity,
            ) {
                Ok(rest) => Ok(first + rest),
                Err(e) => Err(e),
            },
            Err(e) => Err(e),
        }
    }
}

/// A component override: a struct with fields `component_type`, then
/// `diff`.
pub open spec fn spec_component_override(
    doc: Node,
    parent: PrefabUuid,
    prefab_ref: PrefabUuid,
    entity: EntityUuid,
) -> Result<Seq<CallRecord>, PrefabError> {
    match doc {
        Node::Fields(fields) => spec_component_override_fields(
            fields@,
            parent,
            prefab_ref,
            entity,
            None,
            None,
        ),
        _ => Err(PrefabError::PayloadParse(ParseCause::ExpectedFields)),
    }
}

/// The component override scope.  Each `diff` leaf is routed unread,
/// with the parent prefab, referenced prefab, entity and component
/// type of its scope; every key is checked to the end of the scope.
pub open spec fn spec_component_override_fields(
    fields: Seq<(String, Node)>,
    parent: PrefabUuid,
    prefab_ref: PrefabUuid,
    entity: EntityUuid,
    component_type: Option<ComponentTypeUuid>,
    parsed: Option<Seq<CallRecord>>,
) -> Result<Seq<CallRecord>, PrefabError>
    decreases fields.len(),
{
    if fields.len() == 0 {
        match parsed {
            Some(calls) => Ok(calls),
            None => Err(PrefabError::MissingField(FieldName::Diff)),
        }
    } else {
        let k = fields[0].0;
        let v = fields[0].1;
        if k@ == "component_type"@ {
            if component_type is Some {
                Err(PrefabError::DuplicateField(FieldName::ComponentType))
            } else {
                match spec_node_uuid(v) {
                    Some(u) => spec_component_override_fields(
                        fields.drop_first(),
                        parent,
                        prefab_ref,
                        entity,
                        Some(u),
                        parsed,
                    ),
                    None => Err(PrefabError::PayloadParse(ParseCause::InvalidUuid)),
                }
            }
        } else if k@ == "diff"@ {
            match component_type {
                None => Err(PrefabError::FieldOrder(FieldName::ComponentType)),
                Some(ct) => {
                    let one = seq![
                        CallRecord::ApplyComponentDiff {
                            parent_prefab: parent,
                            prefab_ref,
                            entity,
                            component_type: ct,
                            diff: v,
                        },
                    ];
                    spec_component_override_fields(
                        fields.drop_first(),
                        parent,
                        prefab_ref,
                        entity,
                        component_type,
                        Some(
                            match parsed {
                                Some(prev) => prev + one,
                                None => one,
                            },
                        ),
                    )
                },
            }
        } else {
            Err(PrefabError::UnknownField(k))
        }
    }
}

/// Records distribute over concatenation of routed leaves.
pub proof fn lemma_call_records_concat(a: Seq<StorageCall>, b: Seq<StorageCall>)
    ensures
        call_records(a + b) == call_records(a) + call_records(b),
{
    assert(call_records(a + b) =~= call_records(a) + call_records(b));
}

/// The component scope, one field at a time; every key is checked
/// to the end of the scope.
fn parse_component_fields<'a>(
    fields: &'a Vec<(String, Node)>,
    prefab: PrefabUuid,
    entity: EntityUuid,
) -> (r: Result<Vec<StorageCall<'a>>, PrefabError>)
    ensures
        result_records(r) == spec_component_fields(fields@, prefab, entity, None, None),
{
    let mut component_type: Option<ComponentTypeUuid> = None;
    let mut parsed: Option<Vec<StorageCall<'a>>> = None;
    let n = fields.len();
    let mut i: usize = 0;
    proof {
        assert(fields@.skip(0) =~= fields@);
    }
    while i < n
        invariant
            n == fields@.len(),
            i <= n,
            spec_component_fields(fields@, prefab, entity, None, None) == spec_component_fields(
                fields@.skip(i as int),
                prefab, entity,
                component_type,
                (match parsed {
                    Some(v) => Some(call_records(v@)),
                    None => None,
                }),
            ),
        decreases n - i,
    {
        proof {
            assert(fields@.skip(i as int).drop_first() =~= fields@.skip(i as int + 1));
            assert(fields@.skip(i as int)[0] == fields@[i as int]);
        }
        let k = &fields[i].0;
        let v = &fields[i].1;
        if key_is(k, "type") {
            if component_type.is_some() {
                return Err(PrefabError::DuplicateField(FieldName::Type));
            }
            match node_uuid(v) {
                Some(u) => {
                    component_type = Some(u);
                },
                None => {
                    return Err(PrefabError::PayloadParse(ParseCause::InvalidUuid));
                },
            }
        } else if key_is(k, "data") {
            let ct = match component_type {
                None => {
                    return Err(PrefabError::FieldOrder(FieldName::Type));
                },
                Some(ct) => ct,
            };
            let mut one: Vec<StorageCall<'a>> = Vec::new();
            one.push(
                StorageCall::DeserializeComponent { prefab, entity, component_type: ct, data: v },
            );
            proof {
                assert(call_records(one@) =~= seq![
                    CallRecord::DeserializeComponent {
                        prefab,
                        entity,
                        component_type: ct,
                        data: fields@[i as int].1,
                    },
                ]);
            }
            let ghost first = one@;
            match parsed {
                Some(mut prev) => {
                    let ghost prev_view = prev@;
                    prev.append(&mut one);
                    proof {
                        lemma_call_records_concat(prev_view, first);
                    }
                    parsed = Some(prev);
                },
                None => {
                    parsed = Some(one);
                },
            }
        } else {
            return Err(PrefabError::UnknownField(k.clone()));
        }
        i += 1;
    }
    match parsed {
        Some(calls) => Ok(calls),
        None => Err(PrefabError::MissingField(FieldName::Data)),
    }
}

/// A component struct.
fn parse_component<'a>(doc: &'a Node, prefab: PrefabUuid, entity: EntityUuid) -> (r: Result<
    Vec<StorageCall<'a>>,
    PrefabError,
>)
    ensures
        result_records(r) == spec_component(*doc, prefab, entity),
{
    match doc {
        Node::Fields(fields) => parse_component_fields(fields, prefab, entity),
        _ => Err(PrefabError::PayloadParse(ParseCause::ExpectedFields)),
    }
}

/// The `components` sequence.
fn parse_components<'a>(v: &'a Node, prefab: PrefabUuid, entity: EntityUuid) -> (r: Result<
    Vec<StorageCall<'a>>,
    PrefabError,
>)
    ensures
        result_records(r) == spec_components(*v, prefab, entity),
{
    let items = match v {
        Node::List(items) => items,
        _ => {
            return Err(PrefabError::PayloadParse(ParseCause::ExpectedList));
        },
    };
    proof {
        assert(*v == Node::List(*items));
    }
    let mut calls: Vec<StorageCall<'a>> = Vec::new();
    let n = items.len();
    let mut i: usize = 0;
    proof {
        assert(items@.skip(0) =~= items@);
    }
    while i < n
        invariant
            *v == Node::List(*items),
            n == items@.len(),
            i <= n,
            spec_component_items(items@, prefab, entity) == (match spec_component_items(
                items@.skip(i as int),
                prefab,
                entity,
            ) {
                Ok(rest) => Ok(call_records(calls@) + rest),
                Err(e) => Err(e),
            }),
        decreases n - i,
    {
        proof {
            assert(items@.skip(i as int).drop_first() =~= items@.skip(i as int + 1));
            assert(items@.skip(i as int)[0] == items@[i as int]);
        }
        let ghost prev = calls@;
        match parse_component(&items[i], prefab, entity) {
            Err(e) => {
                return Err(e);
            },
            Ok(mut cs) => {
                let ghost first = cs@;
                calls.append(&mut cs);
                proof {
                    lemma_call_records_concat(prev, first);
                    let rec = spec_component_items(items@.skip(i as int + 1), prefab, entity);
                    if rec is Ok {
                        assert(call_records(prev) + (call_records(first) + rec->Ok_0)
                            =~= call_records(calls@) + rec->Ok_0);
                    }
                }
            },
        }
        i += 1;
    }
    proof {
        assert(spec_component_items(items@.skip(n as int), prefab, entity) == Ok::<
            Seq<CallRecord>,
            PrefabError,
        >(Seq::empty()));
        assert(call_records(calls@) + Seq::<CallRecord>::empty() =~= call_records(calls@));
    }
    Ok(calls)
}

/// The entity scope, one field at a time; every key is checked
/// to the end of the scope.
fn parse_entity_fields<'a>(fields: &'a Vec<(String, Node)>, prefab: PrefabUuid) -> (r: Result<
    Vec<StorageCall<'a>>,
    PrefabError,
>)
    ensures
        result_records(r) == spec_entity_fields(fields@, prefab, None, None),
{
    let mut entity: Option<EntityUuid> = None;
    let mut parsed: Option<Vec<StorageCall<'a>>> = None;
    let n = fields.len();
    let mut i: usize = 0;
    proof {
        assert(fields@.skip(0) =~= fields@);
    }
    while i < n
        invariant
            n == fields@.len(),
            i <= n,
            spec_entity_fields(fields@, prefab, None, None) == spec_entity_fields(
                fields@.skip(i as int),
                prefab,
                entity,
                (match parsed {
                    Some(v) => Some(call_records(v@)),
                    None => None,
                }),
            ),
        decreases n - i,
    {
        proof {
            assert(fields@.skip(i as int).drop_first() =~= fields@.skip(i as int + 1));
            assert(fields@.skip(i as int)[0] == fields@[i as int]);
        }
        let k = &fields[i].0;
        let v = &fields[i].1;
        if key_is(k, "id") {
            if entity.is_some() {
                return Err(PrefabError::DuplicateField(FieldName::Id));
            }
            match node_uuid(v) {
                Some(u) => {
                    entity = Some(u);
                },
                None => {
                    return Err(PrefabError::PayloadParse(ParseCause::InvalidUuid));
                },
            }
        } else if key_is(k, "components") {
            let idv = match entity {
                None => {
                    return Err(PrefabError::FieldOrder(FieldName::Id));
                },
                Some(idv) => idv,
            };
            match parse_components(v, prefab, idv) {
                Ok(mut cs) => {
                    let ghost first = cs@;
                    match parsed {
                        Some(mut prev) => {
                            let ghost prev_view = prev@;
                            prev.append(&mut cs);
                            proof {
                                lemma_call_records_concat(prev_view, first);
                            }
                            parsed = Some(prev);
                        },
                        None => {
                            parsed = Some(cs);
                        },
                    }
                },
                Err(e) => {
                    return Err(e);
                },
            }
        } else {
            return Err(PrefabError::UnknownField(k.clone()));
        }
        i += 1;
    }
    match parsed {
        Some(calls) => Ok(calls),
        None => Err(PrefabError::MissingField(FieldName::Components)),
    }
}

/// An entity object.
fn parse_entity<'a>(doc: &'a Node, prefab: PrefabUuid) -> (r: Result<
    Vec<StorageCall<'a>>,
    PrefabError,
>)
    ensures
        result_records(r) == spec_entity(*doc, prefab),
{
    match doc {
        Node::Fields(fields) => parse_entity_fields(fields, prefab),
        _ => Err(PrefabError::PayloadParse(ParseCause::ExpectedFields)),
    }
}

/// The component override scope, one field at a time; every key is checked
/// to the end of the scope.
fn parse_component_override_fields<'a>(
    fields: &'a Vec<(String, Node)>,
    parent: PrefabUuid,
    prefab_ref: PrefabUuid,
    entity: EntityUuid,
) -> (r: Result<Vec<StorageCall<'a>>, PrefabError>)
    ensures
        result_records(r) == spec_component_override_fields(fields@, parent, prefab_ref, entity, None, None),
{
    let mut component_type: Option<ComponentTypeUuid> = None;
    let mut parsed: Option<Vec<StorageCall<'a>>> = None;
    let n = fields.len();
    let mut i: usize = 0;
    proof {
        assert(fields@.skip(0) =~= fields@);
    }
    while i < n
        invariant
            n == fields@.len(),
            i <= n,
            spec_component_override_fields(fields@, parent, prefab_ref, entity, None, None) == spec_component_override_fields(
                fields@.skip(i as int),
                parent, prefab_ref, entity,
                component_type,
                (match parsed {
                    Some(v) => Some(call_records(v@)),
                    None => None,
                }),
            ),
        decreases n - i,
    {
        proof {
            assert(fields@.skip(i as int).drop_first() =~= fields@.skip(i as int + 1));
            assert(fields@.skip(i as int)[0] == fields@[i as int]);
        }
        let k = &fields[i].0;
        let v = &fields[i].1;
        if key_is(k, "component_type") {
            if component_type.is_some() {
                return Err(PrefabError::DuplicateField(FieldName::ComponentType));
            }
            match node_uuid(v) {
                Some(u) => {
                    component_type = Some(u);
                },
                None => {
                    return Err(PrefabError::PayloadParse(ParseCause::InvalidUuid));
                },
            }
        } else if key_is(k, "diff") {
            let ct = match component_type {
                None => {
                    return Err(PrefabError::FieldOrder(FieldName::ComponentType));
                },
                Some(ct) => ct,
            };
            let mut one: Vec<StorageCall<'a>> = Vec::new();
            one.push(
                StorageCall::ApplyComponentDiff {
                    parent_prefab: parent,
                    prefab_ref,
                    entity,
                    component_type: ct,
                    diff: v,
                },
            );
            proof {
                assert(call_records(one@) =~= seq![
                    CallRecord::ApplyComponentDiff {
                        parent_prefab: parent,
                        prefab_ref,
                        entity,
                        component_type: ct,
                        diff: fields@[i as int].1,
                    },
                ]);
            }
            let ghost first = one@;
            match parsed {
                Some(mut prev) => {
                    let ghost prev_view = prev@;
                    prev.append(&mut one);
                    proof {
                        lemma_call_records_concat(prev_view, first);
                    }
                    parsed = Some(prev);
                },
                None => {
                    parsed = Some(one);
                },
            }
        } else {
            return Err(PrefabError::UnknownField(k.clone()));
        }
        i += 1;
    }
    match parsed {
        Some(calls) => Ok(calls),
        None => Err(PrefabError::MissingField(FieldName::Diff)),
    }
}

/// A component override struct.
fn parse_component_override<'a>(
    doc: &'a Node,
    parent: PrefabUuid,
    prefab_ref: PrefabUuid,
    entity: EntityUuid,
) -> (r: Result<Vec<StorageCall<'a>>, PrefabError>)
    ensures
        result_records(r) == spec_component_override(*doc, parent, prefab_ref, entity),
{
    match doc {
        Node::Fields(fields) => parse_component_override_fields(fields, parent, prefab_ref, entity),
        _ => Err(PrefabError::PayloadParse(ParseCause::ExpectedFields)),
    }
}

/// The `component_overrides` sequence.
fn parse_component_overrides<'a>(
    v: &'a Node,
    parent: PrefabUuid,
    prefab_ref: PrefabUuid,
    entity: EntityUuid,
) -> (r: Result<Vec<StorageCall<'a>>, PrefabError>)
    ensures
        result_records(r) == spec_component_overrides(*v, parent, prefab_ref, entity),
{
    let items = match v {
        Node::List(items) => items,
        _ => {
            return Err(PrefabError::PayloadParse(ParseCause::ExpectedList));
        },
    };
    proof {
        assert(*v == Node::List(*items));
    }
    let mut calls: Vec<StorageCall<'a>> = Vec::new();
    let n = items.len();
    let mut i: usize = 0;
    proof {
        assert(items@.skip(0) =~= items@);
    }
    while i < n
        invariant
            *v == Node::List(*items),
            n == items@.len(),
            i <= n,
            spec_component_override_items(items@, parent, prefab_ref, entity) == (match spec_component_override_items(
                items@.skip(i as int),
                parent,
                prefab_ref,
                entity,
            ) {
                Ok(rest) => Ok(call_records(calls@) + rest),
                Err(e) => Err(e),
            }),
        decreases n - i,
    {
        proof {
            assert(items@.skip(i as int).drop_first() =~= items@.skip(i as int + 1));
            assert(items@.skip(i as int)[0] == items@[i as int]);
        }
        let ghost prev = calls@;
        match parse_component_override(&items[i], parent, prefab_ref, entity) {
            Ok(mut cs) => {
                let ghost first = cs@;
                calls.append(&mut cs);
                proof {
                    lemma_call_records_concat(prev, first);
                    let rec = spec_component_override_items(
                        items@.skip(i as int + 1),
                        parent,
                        prefab_ref,
                        entity,
                    );
                    if rec is Ok {
                        assert(call_records(prev) + (call_records(first) + rec->Ok_0)
                            =~= call_records(calls@) + rec->Ok_0);
                    }
                }
            },
            Err(e) => {
                return Err(e);
            },
        }
        i += 1;
    }
    proof {
        assert(spec_component_override_items(items@.skip(n as int), parent, prefab_ref, entity)
            == Ok::<Seq<CallRecord>, PrefabError>(Seq::empty()));
        assert(call_records(calls@) + Seq::<CallRecord>::empty() =~= call_records(calls@));
    }
    Ok(calls)
}

/// The entity override scope, one field at a time; every key is checked
/// to the end of the scope.
fn parse_entity_override_fields<'a>(
    fields: &'a Vec<(String, Node)>,
    parent: PrefabUuid,
    prefab_ref: PrefabUuid,
) -> (r: Result<
    Vec<StorageCall<'a>>,
    PrefabError,
>)
    ensures
        result_records(r) == spec_entity_override_fields(fields@, parent, prefab_ref, None, None),
{
    let mut entity: Option<EntityUuid> = None;
    let mut parsed: Option<Vec<StorageCall<'a>>> = None;
    let n = fields.len();
    let mut i: usize = 0;
    proof {
        assert(fields@.skip(0) =~= fields@);
    }
    while i < n
        invariant
            n == fields@.len(),
            i <= n,
            spec_entity_override_fields(fields@, parent, prefab_ref, None, None) == spec_entity_override_fields(
                fields@.skip(i as int),
                parent, prefab_ref,
                entity,
                (match parsed {
                    Some(v) => Some(call_records(v@)),
                    None => None,
                }),
            ),
        decreases n - i,
    {
        proof {
            assert(fields@.skip(i as int).drop_first() =~= fields@.skip(i as int + 1));
            assert(fields@.skip(i as int)[0] == fields@[i as int]);
        }
        let k = &fields[i].0;
        let v = &fields[i].1;
        if key_is(k, "entity_id") {
            if entity.is_some() {
                return Err(PrefabError::DuplicateField(FieldName::EntityId));
            }
            match node_uuid(v) {
                Some(u) => {
                    entity = Some(u);
                },
                None => {
                    return Err(PrefabError::PayloadParse(ParseCause::InvalidUuid));
                },
            }
        } else if key_is(k, "component_overrides") {
            let idv = match entity {
                None => {
                    return Err(PrefabError::FieldOrder(FieldName::EntityId));
                },
                Some(idv) => idv,
            };
            match parse_component_overrides(v, parent, prefab_ref, idv) {
                Ok(mut cs) => {
                    let ghost first = cs@;
                    match parsed {
                        Some(mut prev) => {
                            let ghost prev_view = prev@;
                            prev.append(&mut cs);
                            proof {
                                lemma_call_records_concat(prev_view, first);
                            }
                            parsed = Some(prev);
                        },
                        None => {
                            parsed = Some(cs);
                        },
                    }
                },
                Err(e) => {
                    return Err(e);
                },
            }
        } else {
            return Err(PrefabError::UnknownField(k.clone()));
        }
        i += 1;
    }
    match parsed {
        Some(calls) => Ok(calls),
        None => Err(PrefabError::MissingField(FieldName::ComponentOverrides)),
    }
}

/// An entity override struct.
fn parse_entity_override<'a>(doc: &'a Node, parent: PrefabUuid, prefab_ref: PrefabUuid) -> (r:
    Result<Vec<StorageCall<'a>>, PrefabError>)
    ensures
        result_records(r) == spec_entity_override(*doc, parent, prefab_ref),
{
    match doc {
        Node::Fields(fields) => parse_entity_override_fields(fields, parent, prefab_ref),
        _ => Err(PrefabError::PayloadParse(ParseCause::ExpectedFields)),
    }
}

/// The `entity_overrides` sequence.
fn parse_entity_overrides<'a>(v: &'a Node, parent: PrefabUuid, prefab_ref: PrefabUuid) -> (r:
    Result<Vec<StorageCall<'a>>, PrefabError>)
    ensures
        result_records(r) == spec_entity_overrides(*v, parent, prefab_ref),
{
    let items = match v {
        Node::List(items) => items,
        _ => {
            return Err(PrefabError::PayloadParse(ParseCause::ExpectedList));
        },
    };
    proof {
        assert(*v == Node::List(*items));
    }
    let mut calls: Vec<StorageCall<'a>> = Vec::new();
    let n = items.len();
    let mut i: usize = 0;
    proof {
        assert(items@.skip(0) =~= items@);
    }
    while i < n
        invariant
            *v == Node::List(*items),
            n == items@.len(),
            i <= n,
            spec_entity_override_items(items@, parent, prefab_ref) == (match spec_entity_override_items(
                items@.skip(i as int),
                parent,
                prefab_ref,
            ) {
                Ok(rest) => Ok(call_records(calls@) + rest),
                Err(e) => Err(e),
            }),
        decreases n - i,
    {
        proof {
            assert(items@.skip(i as int).drop_first() =~= items@.skip(i as int + 1));
            assert(items@.skip(i as int)[0] == items@[i as int]);
        }
        let ghost prev = calls@;
        match parse_entity_override(&items[i], parent, prefab_ref) {
            Ok(mut cs) => {
                let ghost first = cs@;
                calls.append(&mut cs);
                proof {
                    lemma_call_records_concat(prev, first);
                    let rec = spec_entity_override_items(items@.skip(i as int + 1), parent, prefab_ref);
                    if rec is Ok {
                        assert(call_records(prev) + (call_records(first) + rec->Ok_0)
                            =~= call_records(calls@) + rec->Ok_0);
                    }
                }
            },
            Err(e) => {
                return Err(e);
            },
        }
        i += 1;
    }
    proof {
        assert(spec_entity_override_items(items@.skip(n as int), parent, prefab_ref) == Ok::<
            Seq<CallRecord>,
            PrefabError,
        >(Seq::empty()));
        assert(call_records(calls@) + Seq::<CallRecord>::empty() =~= call_records(calls@));
    }
    Ok(calls)
}

/// The prefab reference scope, one field at a time; every key is checked
/// to the end of the scope.
fn parse_prefab_ref_fields<'a>(fields: &'a Vec<(String, Node)>, parent: PrefabUuid) -> (r: Result<
    Vec<StorageCall<'a>>,
    PrefabError,
>)
    ensures
        result_records(r) == spec_prefab_ref_fields(fields@, parent, None, None),
{
    let mut prefab_ref: Option<PrefabUuid> = None;
    let mut parsed: Option<Vec<StorageCall<'a>>> = None;
    let n = fields.len();
    let mut i: usize = 0;
    proof {
        assert(fields@.skip(0) =~= fields@);
    }
    while i < n
        invariant
            n == fields@.len(),
            i <= n,
            spec_prefab_ref_fields(fields@, parent, None, None) == spec_prefab_ref_fields(
                fields@.skip(i as int),
                parent,
                prefab_ref,
                (match parsed {
                    Some(v) => Some(call_records(v@)),
                    None => None,
                }),
            ),
        decreases n - i,
    {
        proof {
            assert(fields@.skip(i as int).drop_first() =~= fields@.skip(i as int + 1));
            assert(fields@.skip(i as int)[0] == fields@[i as int]);
        }
        let k = &fields[i].0;
        let v = &fields[i].1;
        if key_is(k, "prefab_id") {
            if prefab_ref.is_some() {
                return Err(PrefabError::DuplicateField(FieldName::PrefabId));
            }
            match node_uuid(v) {
                Some(u) => {
                    prefab_ref = Some(u);
                },
                None => {
                    return Err(PrefabError::PayloadParse(ParseCause::InvalidUuid));
                },
            }
        } else if key_is(k, "entity_overrides") {
            let idv = match prefab_ref {
                None => {
                    return Err(PrefabError::FieldOrder(FieldName::PrefabId));
                },
                Some(idv) => idv,
            };
            match parse_entity_overrides(v, parent, idv) {
                Ok(mut cs) => {
                    let ghost first = cs@;
                    match parsed {
                        Some(mut prev) => {
                            let ghost prev_view = prev@;
                            prev.append(&mut cs);
                            proof {
                                lemma_call_records_concat(prev_view, first);
                            }
                            parsed = Some(prev);
                        },
                        None => {
                            parsed = Some(cs);
                        },
                    }
                },
                Err(e) => {
                    return Err(e);
                },
            }
        } else {
            return Err(PrefabError::UnknownField(k.clone()));
        }
        i += 1;
    }
    match parsed {
        Some(calls) => Ok(calls),
        None => Err(PrefabError::MissingField(FieldName::EntityOverrides)),
    }
}

/// A prefab reference struct.
fn parse_prefab_ref<'a>(doc: &'a Node, parent: PrefabUuid) -> (r: Result<
    Vec<StorageCall<'a>>,
    PrefabError,
>)
    ensures
        result_records(r) == spec_prefab_ref(*doc, parent),
{
    match doc {
        Node::Fields(fields) => parse_prefab_ref_fields(fields, parent),
        _ => Err(PrefabError::PayloadParse(ParseCause::ExpectedFields)),
    }
}

/// A prefab object: dispatch on the variant tag.
fn parse_object<'a>(item: &'a Node, prefab: PrefabUuid) -> (r: Result<
    Vec<StorageCall<'a>>,
    PrefabError,
>)
    ensures
        result_records(r) == spec_object(*item, prefab),
{
    match item {
        Node::Variant(tag, payload) => {
            if key_is(tag, "Entity") {
                parse_entity(&**payload, prefab)
            } else if key_is(tag, "PrefabRef") {
                parse_prefab_ref(&**payload, prefab)
            } else {
                Err(PrefabError::UnknownVariant(tag.clone()))
            }
        },
        _ => Err(PrefabError::PayloadParse(ParseCause::ExpectedVariant)),
    }
}

/// The `objects` sequence.
fn parse_objects<'a>(v: &'a Node, prefab: PrefabUuid) -> (r: Result<
    Vec<StorageCall<'a>>,
    PrefabError,
>)
    ensures
        result_records(r) == spec_objects(*v, prefab),
{
    let items = match v {
        Node::List(items) => items,
        _ => {
            return Err(PrefabError::PayloadParse(ParseCause::ExpectedList));
        },
    };
    proof {
        assert(*v == Node::List(*items));
    }
    let mut calls: Vec<StorageCall<'a>> = Vec::new();
    let n = items.len();
    let mut i: usize = 0;
    proof {
        assert(items@.skip(0) =~= items@);
    }
    while i < n
        invariant
            *v == Node::List(*items),
            n == items@.len(),
            i <= n,
            spec_object_items(items@, prefab) == (match spec_object_items(
                items@.skip(i as int),
                prefab,
            ) {
                Ok(rest) => Ok(call_records(calls@) + rest),
                Err(e) => Err(e),
            }),
        decreases n - i,
    {
        proof {
            assert(items@.skip(i as int).drop_first() =~= items@.skip(i as int + 1));
            assert(items@.skip(i as int)[0] == items@[i as int]);
        }
        let ghost prev = calls@;
        match parse_object(&items[i], prefab) {
            Ok(mut cs) => {
                let ghost first = cs@;
                calls.append(&mut cs);
                proof {
                    lemma_call_records_concat(prev, first);
                    let rec = spec_object_items(items@.skip(i as int + 1), prefab);
                    if rec is Ok {
                        assert(call_records(prev) + (call_records(first) + rec->Ok_0)
                            =~= call_records(calls@) + rec->Ok_0);
                    }
                }
            },
            Err(e) => {
                return Err(e);
            },
        }
        i += 1;
    }
    proof {
        assert(spec_object_items(items@.skip(n as int), prefab) == Ok::<
            Seq<CallRecord>,
            PrefabError,
        >(Seq::empty()));
        assert(call_records(calls@) + Seq::<CallRecord>::empty() =~= call_records(calls@));
    }
    Ok(calls)
}

/// Walks a whole structured prefab document and returns, in document
/// order, every storage call it asks for: each component payload with
/// the prefab and entity that own it, and each override diff with its
/// full transactional context.  The payload nodes are handed back
/// in place, unread.
pub fn parse_prefab_calls<'a>(doc: &'a Node) -> (r: Result<Vec<StorageCall<'a>>, PrefabError>)
    ensures
        result_records(r) == spec_parse_prefab(*doc),
{
    let fields = match doc {
        Node::Fields(fields) => fields,
        _ => {
            return Err(PrefabError::PayloadParse(ParseCause::ExpectedFields));
        },
    };
    proof {
        assert(*doc == Node::Fields(*fields));
    }
    let mut id: Option<PrefabUuid> = None;
    let mut parsed: Option<Vec<StorageCall<'a>>> = None;
    let n = fields.len();
    let mut i: usize = 0;
    proof {
        assert(fields@.skip(0) =~= fields@);
    }
    while i < n
        invariant
            *doc == Node::Fields(*fields),
            n == fields@.len(),
            i <= n,
            spec_prefab_fields(fields@, None, None) == spec_prefab_fields(
                fields@.skip(i as int),
                id,
                (match parsed {
                    Some(v) => Some(call_records(v@)),
                    None => None,
                }),
            ),
        decreases n - i,
    {
        proof {
            assert(fields@.skip(i as int).drop_first() =~= fields@.skip(i as int + 1));
            assert(fields@.skip(i as int)[0] == fields@[i as int]);
        }
        let k = &fields[i].0;
        let v = &fields[i].1;
        if key_is(k, "id") {
            if id.is_some() {
                return Err(PrefabError::DuplicateField(FieldName::Id));
            }
            match node_uuid(v) {
                Some(u) => {
                    id = Some(u);
                },
                None => {
                    return Err(PrefabError::PayloadParse(ParseCause::InvalidUuid));
                },
            }
        } else if key_is(k, "objects") {
            let pid = match id {
                None => {
                    return Err(PrefabError::FieldOrder(FieldName::Id));
                },
                Some(pid) => pid,
            };
            match parse_objects(v, pid) {
                Ok(mut cs) => {
                    let ghost first = cs@;
                    match parsed {
                        Some(mut prev) => {
                            let ghost prev_view = prev@;
                            prev.append(&mut cs);
                            proof {
                                lemma_call_records_concat(prev_view, first);
                            }
                            parsed = Some(prev);
                        },
                        None => {
                            parsed = Some(cs);
                        },
                    }
                },
                Err(e) => {
                    return Err(e);
                },
            }
        } else {
            return Err(PrefabError::UnknownField(k.clone()));
        }
        i += 1;
    }
    match parsed {
        Some(calls) => Ok(calls),
        None => Err(PrefabError::MissingField(FieldName::Objects)),
    }
}

/// The storage sink: the caller-supplied collaborator that realizes
/// component values and records prefab references while a structured
/// document is walked.  The walker borrows it for the length of one
/// parse and hands it each leaf payload unread.
pub trait Storage {
    /// Realize one component value for an entity declared by `prefab`.
    fn deserialize_component(
        &self,
        prefab: &PrefabUuid,
        entity: &EntityUuid,
        component_type: &ComponentTypeUuid,
        data: &Node,
    ) -> Result<(), String>;

    /// Record that `prefab` instantiates `target_prefab`.
    fn add_prefab_ref(&self, prefab: &PrefabUuid, target_prefab: &PrefabUuid);

    /// Apply one component diff to an entity of a referenced prefab.
    fn apply_component_diff(
        &self,
        parent_prefab: &PrefabUuid,
        prefab_ref: &PrefabUuid,
        entity: &EntityUuid,
        component_type: &ComponentTypeUuid,
        diff: &Node,
    ) -> Result<(), String>;
}

/// Walks structured prefab documents for one storage sink.
pub struct PrefabDeserializer<'a, S: Storage> {
    pub storage: &'a S,
}

impl<'a, S: Storage> PrefabDeserializer<'a, S> {
    /// Walks one document and drives the storage sink with every call
    /// the document asks for, in document order.  A malformed envelope
    /// is reported exactly as [`spec_parse_prefab`] says; when the
    /// envelope is sound, the only error left is the sink's own,
    /// carried as [`PrefabError::StorageRejected`] — so a document
    /// that routes no calls, such as an empty prefab, cannot fail.
    pub fn deserialize(&self, doc: &Node) -> (r: Result<crate::Prefab, PrefabError>)
        ensures
            spec_parse_prefab(*doc) is Err ==> r == Err::<crate::Prefab, PrefabError>(
                spec_parse_prefab(*doc)->Err_0,
            ),
            spec_parse_prefab(*doc) is Ok ==> (r is Ok || r matches Err(
                PrefabError::StorageRejected(_),
            )),
            (spec_parse_prefab(*doc) matches Ok(calls) && calls.len() == 0) ==> r is Ok,
    {
        let calls = match parse_prefab_calls(doc) {
            Ok(calls) => calls,
            Err(e) => {
                return Err(e);
            },
        };
        proof {
            assert(spec_parse_prefab(*doc)->Ok_0.len() == calls@.len());
        }
        let n = calls.len();
        let mut i: usize = 0;
        while i < n
            invariant
                i <= n,
                n == calls@.len(),
                spec_parse_prefab(*doc) is Ok,
                n == spec_parse_prefab(*doc)->Ok_0.len(),
            decreases n - i,
        {
            match &calls[i] {
                StorageCall::DeserializeComponent { prefab, entity, component_type, data } => {
                    match self.storage.deserialize_component(prefab, entity, component_type, data) {
                        Ok(_) => {},
                        Err(msg) => {
                            return Err(PrefabError::StorageRejected(msg));
                        },
                    }
                },
                StorageCall::ApplyComponentDiff {
                    parent_prefab,
                    prefab_ref,
                    entity,
                    component_type,
                    diff,
                } => {
                    match self.storage.apply_component_diff(
                        parent_prefab,
                        prefab_ref,
                        entity,
                        component_type,
                        diff,
                    ) {
                        Ok(_) => {},
                        Err(msg) => {
                            return Err(PrefabError::StorageRejected(msg));
                        },
                    }
                },
            }
            i += 1;
        }
        Ok(crate::Prefab {})
    }
}

/// The identifier and data keys of each scope are distinct strings.
pub proof fn lemma_keys_distinct()
    ensures
        "objects"@ != "id"@,
        "components"@ != "id"@,
        "data"@ != "type"@,
        "entity_overrides"@ != "prefab_id"@,
        "component_overrides"@ != "entity_id"@,
        "diff"@ != "component_type"@,
{
    reveal_strlit("objects");
    reveal_strlit("id");
    reveal_strlit("components");
    reveal_strlit("data");
    reveal_strlit("type");
    reveal_strlit("entity_overrides");
    reveal_strlit("prefab_id");
    reveal_strlit("component_overrides");
    reveal_strlit("entity_id");
    reveal_strlit("diff");
    reveal_strlit("component_type");
    assert("objects"@.len() == 7 && "id"@.len() == 2);
    assert("components"@.len() == 10);
    assert("data"@[0] == 'd' && "type"@[0] == 't');
    assert("entity_overrides"@.len() == 16 && "prefab_id"@.len() == 9);
    assert("component_overrides"@.len() == 19 && "entity_id"@.len() == 9);
    assert("diff"@.len() == 4 && "component_type"@.len() == 14);
}

/// In the prefab scope, `objects` met before `id` fails with a field
/// order error naming `id`, whatever follows.
pub proof fn lemma_prefab_field_order(fields: Seq<(String, Node)>)
    requires
        fields.len() > 0,
        fields[0].0@ == "objects"@,
    ensures
        spec_prefab_fields(fields, None, None) == Err::<Seq<CallRecord>, PrefabError>(
            PrefabError::FieldOrder(FieldName::Id),
        ),
{
    lemma_keys_distinct();
}

/// In the entity scope, `components` met before `id` fails with a
/// field order error naming `id`.
pub proof fn lemma_entity_field_order(fields: Seq<(String, Node)>, prefab: PrefabUuid)
    requires
        fields.len() > 0,
        fields[0].0@ == "components"@,
    ensures
        spec_entity_fields(fields, prefab, None, None) == Err::<Seq<CallRecord>, PrefabError>(
            PrefabError::FieldOrder(FieldName::Id),
        ),
{
    lemma_keys_distinct();
}

/// In the component scope, `data` met before `type` fails with a field
/// order error naming `type`.
pub proof fn lemma_component_field_order(
    fields: Seq<(String, Node)>,
    prefab: PrefabUuid,
    entity: EntityUuid,
)
    requires
        fields.len() > 0,
        fields[0].0@ == "data"@,
    ensures
        spec_component_fields(fields, prefab, entity, None, None) == Err::<Seq<CallRecord>, PrefabError>(
            PrefabError::FieldOrder(FieldName::Type),
        ),
{
    lemma_keys_distinct();
}

/// In the prefab reference scope, `entity_overrides` met before
/// `prefab_id` fails with a field order error naming `prefab_id`.
pub proof fn lemma_prefab_ref_field_order(fields: Seq<(String, Node)>, parent: PrefabUuid)
    requires
        fields.len() > 0,
        fields[0].0@ == "entity_overrides"@,
    ensures
        spec_prefab_ref_fields(fields, parent, None, None) == Err::<Seq<CallRecord>, PrefabError>(
            PrefabError::FieldOrder(FieldName::PrefabId),
        ),
{
    lemma_keys_distinct();
}

/// In the entity override scope, `component_overrides` met before
/// `entity_id` fails with a field order error naming `entity_id`.
pub proof fn lemma_entity_override_field_order(
    fields: Seq<(String, Node)>,
    parent: PrefabUuid,
    prefab_ref: PrefabUuid,
)
    requires
        fields.len() > 0,
        fields[0].0@ == "component_overrides"@,
    ensures
        spec_entity_override_fields(fields, parent, prefab_ref, None, None) == Err::<
            Seq<CallRecord>,
            PrefabError,
        >(PrefabError::FieldOrder(FieldName::EntityId)),
{
    lemma_keys_distinct();
}

/// In the component override scope, `diff` met before `component_type`
/// fails with a field order error naming `component_type`.
pub proof fn lemma_component_override_field_order(
    fields: Seq<(String, Node)>,
    parent: PrefabUuid,
    prefab_ref: PrefabUuid,
    entity: EntityUuid,
)
    requires
        fields.len() > 0,
        fields[0].0@ == "diff"@,
    ensures
        spec_component_override_fields(fields, parent, prefab_ref, entity, None, None) == Err::<
            Seq<CallRecord>,
            PrefabError,
        >(PrefabError::FieldOrder(FieldName::ComponentType)),
{
    lemma_keys_distinct();
}

/// A document declaring prefab `p` with exactly one entity `e`
/// carrying exactly one component of type `c` with payload `d`.
pub open spec fn single_component_doc(
    doc: Node,
    p: PrefabUuid,
    e: EntityUuid,
    c: ComponentTypeUuid,
    d: Node,
) -> bool {
    &&& doc matches Node::Fields(pf)
    &&& pf@.len() == 2
    &&& pf@[0].0@ == "id"@
    &&& spec_node_uuid(pf@[0].1) == Some(p)
    &&& pf@[1].0@ == "objects"@
    &&& pf@[1].1 matches Node::List(objs)
    &&& objs@.len() == 1
    &&& objs@[0] matches Node::Variant(tag, ent)
    &&& tag@ == "Entity"@
    &&& *ent matches Node::Fields(ef)
    &&& ef@.len() == 2
    &&& ef@[0].0@ == "id"@
    &&& spec_node_uuid(ef@[0].1) == Some(e)
    &&& ef@[1].0@ == "components"@
    &&& ef@[1].1 matches Node::List(comps)
    &&& comps@.len() == 1
    &&& comps@[0] matches Node::Fields(cf)
    &&& cf@.len() == 2
    &&& cf@[0].0@ == "type"@
    &&& spec_node_uuid(cf@[0].1) == Some(c)
    &&& cf@[1].0@ == "data"@
    &&& cf@[1].1 == d
}

/// Dependent routing: a document with entity `e` in prefab `p`
/// carrying component `c` asks for exactly one storage call, a
/// component deserialization of `(p, e, c)` with the payload node
/// handed over unread.
pub proof fn lemma_dependent_routing(
    doc: Node,
    p: PrefabUuid,
    e: EntityUuid,
    c: ComponentTypeUuid,
    d: Node,
)
    requires
        single_component_doc(doc, p, e, c, d),
    ensures
        spec_parse_prefab(doc) == Ok::<Seq<CallRecord>, PrefabError>(
            seq![
                CallRecord::DeserializeComponent { prefab: p, entity: e, component_type: c, data: d },
            ],
        ),
{
    lemma_keys_distinct();
    let pf = doc->Fields_0;
    let objs = pf@[1].1->List_0;
    let ent = *objs@[0]->Variant_1;
    let ef = ent->Fields_0;
    let comps = ef@[1].1->List_0;
    let cf = comps@[0]->Fields_0;
    let one = seq![
        CallRecord::DeserializeComponent { prefab: p, entity: e, component_type: c, data: d },
    ];

    let cf1 = seq![cf@[1]];
    assert(spec_component_fields(Seq::<(String, Node)>::empty(), p, e, Some(c), Some(one)) == Ok::<
        Seq<CallRecord>,
        PrefabError,
    >(one));
    assert(cf1.drop_first() =~= Seq::<(String, Node)>::empty());
    assert(spec_component_fields(cf1, p, e, Some(c), None) == Ok::<Seq<CallRecord>, PrefabError>(
        one,
    ));
    assert(cf@.drop_first() =~= cf1);
    assert(spec_component_fields(cf@, p, e, None, None) == Ok::<Seq<CallRecord>, PrefabError>(one));
    assert(spec_component(comps@[0], p, e) == Ok::<Seq<CallRecord>, PrefabError>(one));

    assert(spec_component_items(Seq::<Node>::empty(), p, e) == Ok::<Seq<CallRecord>, PrefabError>(
        Seq::<CallRecord>::empty(),
    ));
    assert(comps@.drop_first() =~= Seq::<Node>::empty());
    assert(one + Seq::<CallRecord>::empty() =~= one);
    assert(spec_component_items(comps@, p, e) == Ok::<Seq<CallRecord>, PrefabError>(one));
    assert(spec_components(ef@[1].1, p, e) == Ok::<Seq<CallRecord>, PrefabError>(one));

    let ef1 = seq![ef@[1]];
    assert(spec_entity_fields(Seq::<(String, Node)>::empty(), p, Some(e), Some(one)) == Ok::<
        Seq<CallRecord>,
        PrefabError,
    >(one));
    assert(ef1.drop_first() =~= Seq::<(String, Node)>::empty());
    assert(spec_entity_fields(ef1, p, Some(e), None) == Ok::<Seq<CallRecord>, PrefabError>(one));
    assert(ef@.drop_first() =~= ef1);
    assert(spec_entity_fields(ef@, p, None, None) == Ok::<Seq<CallRecord>, PrefabError>(one));
    assert(spec_entity(ent, p) == Ok::<Seq<CallRecord>, PrefabError>(one));
    assert(spec_object(objs@[0], p) == Ok::<Seq<CallRecord>, PrefabError>(one));

    assert(spec_object_items(Seq::<Node>::empty(), p) == Ok::<Seq<CallRecord>, PrefabError>(
        Seq::<CallRecord>::empty(),
    ));
    assert(objs@.drop_first() =~= Seq::<Node>::empty());
    assert(spec_object_items(objs@, p) == Ok::<Seq<CallRecord>, PrefabError>(one));
    assert(spec_objects(pf@[1].1, p) == Ok::<Seq<CallRecord>, PrefabError>(one));

    let pf1 = seq![pf@[1]];
    assert(spec_prefab_fields(Seq::<(String, Node)>::empty(), Some(p), Some(one)) == Ok::<
        Seq<CallRecord>,
        PrefabError,
    >(one));
    assert(pf1.drop_first() =~= Seq::<(String, Node)>::empty());
    assert(spec_prefab_fields(pf1, Some(p), None) == Ok::<Seq<CallRecord>, PrefabError>(one));
    assert(pf@.drop_first() =~= pf1);
    assert(spec_prefab_fields(pf@, None, None) == Ok::<Seq<CallRecord>, PrefabError>(one));
}

} // verus!
