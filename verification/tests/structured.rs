use std::cell::RefCell;

use prefab_format::FieldName;
use prefab_format::Node;
use prefab_format::ParseCause;
use prefab_format::PrefabDeserializer;
use prefab_format::PrefabError;
use prefab_format::Storage;
use prefab_format::StorageCall;
use prefab_format::UuidValue;
use prefab_format::parse_prefab_calls;

fn key(k: &str, v: Node) -> (String, Node) {
    (k.to_string(), v)
}

fn uuid(hi: u64, lo: u64) -> UuidValue {
    UuidValue { hi, lo }
}

fn uuid_node(hi: u64, lo: u64) -> Node {
    Node::Bytes(uuid(hi, lo).to_bytes())
}

fn entity_obj(fields: Vec<(String, Node)>) -> Node {
    Node::Variant("Entity".to_string(), Box::new(Node::Fields(fields)))
}

fn prefab_ref_obj(fields: Vec<(String, Node)>) -> Node {
    Node::Variant("PrefabRef".to_string(), Box::new(Node::Fields(fields)))
}

fn clone_node(n: &Node) -> Node {
    match n {
        Node::Text(s) => Node::Text(s.clone()),
        Node::Bytes(b) => Node::Bytes(b.clone()),
        Node::List(items) => Node::List(items.iter().map(clone_node).collect()),
        Node::Fields(f) => {
            Node::Fields(f.iter().map(|(k, v)| (k.clone(), clone_node(v))).collect())
        }
        Node::Variant(t, p) => Node::Variant(t.clone(), Box::new(clone_node(p))),
    }
}

#[derive(Debug, PartialEq)]
enum Seen {
    Component(UuidValue, UuidValue, UuidValue, Node),
    Diff(UuidValue, UuidValue, UuidValue, UuidValue, Node),
}

struct Recorder {
    seen: RefCell<Vec<Seen>>,
    fail: bool,
}

impl Recorder {
    fn new() -> Recorder {
        Recorder {
            seen: RefCell::new(Vec::new()),
            fail: false,
        }
    }
}

impl Storage for Recorder {
    fn deserialize_component(
        &self,
        prefab: &UuidValue,
        entity: &UuidValue,
        component_type: &UuidValue,
        data: &Node,
    ) -> Result<(), String> {
        if self.fail {
            return Err("sink refused".to_string());
        }
        self.seen.borrow_mut().push(Seen::Component(
            *prefab,
            *entity,
            *component_type,
            clone_node(data),
        ));
        Ok(())
    }

    fn add_prefab_ref(&self, _prefab: &UuidValue, _target_prefab: &UuidValue) {}

    fn apply_component_diff(
        &self,
        parent_prefab: &UuidValue,
        prefab_ref: &UuidValue,
        entity: &UuidValue,
        component_type: &UuidValue,
        diff: &Node,
    ) -> Result<(), String> {
        if self.fail {
            return Err("sink refused".to_string());
        }
        self.seen.borrow_mut().push(Seen::Diff(
            *parent_prefab,
            *prefab_ref,
            *entity,
            *component_type,
            clone_node(diff),
        ));
        Ok(())
    }
}

#[test]
fn empty_prefab_routes_nothing() {
    let doc = Node::Fields(vec![
        key("id", uuid_node(1, 1)),
        key("objects", Node::List(vec![])),
    ]);
    let calls = parse_prefab_calls(&doc).unwrap();
    assert_eq!(calls.len(), 0);
    let storage = Recorder::new();
    let de = PrefabDeserializer { storage: &storage };
    assert!(de.deserialize(&doc).is_ok());
    assert_eq!(storage.seen.borrow().len(), 0);
}

#[test]
fn single_entity_single_component() {
    let doc = Node::Fields(vec![
        key("id", uuid_node(1, 1)),
        key(
            "objects",
            Node::List(vec![entity_obj(vec![
                key("id", uuid_node(2, 2)),
                key(
                    "components",
                    Node::List(vec![Node::Fields(vec![
                        key("type", uuid_node(3, 3)),
                        key("data", Node::Bytes(vec![42])),
                    ])]),
                ),
            ])]),
        ),
    ]);
    let calls = parse_prefab_calls(&doc).unwrap();
    assert_eq!(calls.len(), 1);
    match &calls[0] {
        StorageCall::DeserializeComponent {
            prefab,
            entity,
            component_type,
            data,
        } => {
            assert_eq!(*prefab, uuid(1, 1));
            assert_eq!(*entity, uuid(2, 2));
            assert_eq!(*component_type, uuid(3, 3));
            assert_eq!(**data, Node::Bytes(vec![42]));
        }
        other => panic!("unexpected call {:?}", other),
    }
    let storage = Recorder::new();
    let de = PrefabDeserializer { storage: &storage };
    assert!(de.deserialize(&doc).is_ok());
    let seen = storage.seen.borrow();
    assert_eq!(seen.len(), 1);
    assert_eq!(
        seen[0],
        Seen::Component(uuid(1, 1), uuid(2, 2), uuid(3, 3), Node::Bytes(vec![42]))
    );
}

#[test]
fn prefab_ref_with_one_override() {
    let delta = Node::Bytes(vec![9, 9]);
    let doc = Node::Fields(vec![
        key("id", uuid_node(2, 0)),
        key(
            "objects",
            Node::List(vec![prefab_ref_obj(vec![
                key("prefab_id", uuid_node(1, 0)),
                key(
                    "entity_overrides",
                    Node::List(vec![Node::Fields(vec![
                        key("entity_id", uuid_node(7, 7)),
                        key(
                            "component_overrides",
                            Node::List(vec![Node::Fields(vec![
                                key("component_type", uuid_node(3, 3)),
                                key("diff", clone_node(&delta)),
                            ])]),
                        ),
                    ])]),
                ),
            ])]),
        ),
    ]);
    let storage = Recorder::new();
    let de = PrefabDeserializer { storage: &storage };
    assert!(de.deserialize(&doc).is_ok());
    let seen = storage.seen.borrow();
    assert_eq!(seen.len(), 1);
    assert_eq!(
        seen[0],
        Seen::Diff(uuid(2, 0), uuid(1, 0), uuid(7, 7), uuid(3, 3), delta)
    );
}

#[test]
fn duplicate_id_is_reported() {
    let doc = Node::Fields(vec![
        key("id", uuid_node(1, 1)),
        key("id", uuid_node(1, 1)),
        key("objects", Node::List(vec![])),
    ]);
    let err = parse_prefab_calls(&doc).unwrap_err();
    assert!(matches!(err, PrefabError::DuplicateField(FieldName::Id)));
}

#[test]
fn objects_before_id_is_a_field_order_error() {
    let doc = Node::Fields(vec![
        key("objects", Node::List(vec![])),
        key("id", uuid_node(1, 1)),
    ]);
    let err = parse_prefab_calls(&doc).unwrap_err();
    assert!(matches!(err, PrefabError::FieldOrder(FieldName::Id)));
}

#[test]
fn components_before_entity_id_is_a_field_order_error() {
    let doc = Node::Fields(vec![
        key("id", uuid_node(1, 1)),
        key(
            "objects",
            Node::List(vec![entity_obj(vec![
                key("components", Node::List(vec![])),
                key("id", uuid_node(2, 2)),
            ])]),
        ),
    ]);
    let err = parse_prefab_calls(&doc).unwrap_err();
    assert!(matches!(err, PrefabError::FieldOrder(FieldName::Id)));
}

#[test]
fn data_before_type_is_a_field_order_error() {
    let doc = Node::Fields(vec![
        key("id", uuid_node(1, 1)),
        key(
            "objects",
            Node::List(vec![entity_obj(vec![
                key("id", uuid_node(2, 2)),
                key(
                    "components",
                    Node::List(vec![Node::Fields(vec![
                        key("data", Node::Bytes(vec![1])),
                        key("type", uuid_node(3, 3)),
                    ])]),
                ),
            ])]),
        ),
    ]);
    let err = parse_prefab_calls(&doc).unwrap_err();
    assert!(matches!(err, PrefabError::FieldOrder(FieldName::Type)));
}

#[test]
fn entity_overrides_before_prefab_id_is_a_field_order_error() {
    let doc = Node::Fields(vec![
        key("id", uuid_node(1, 1)),
        key(
            "objects",
            Node::List(vec![prefab_ref_obj(vec![
                key("entity_overrides", Node::List(vec![])),
                key("prefab_id", uuid_node(5, 5)),
            ])]),
        ),
    ]);
    let err = parse_prefab_calls(&doc).unwrap_err();
    assert!(matches!(err, PrefabError::FieldOrder(FieldName::PrefabId)));
}

#[test]
fn component_overrides_before_entity_id_is_a_field_order_error() {
    let doc = Node::Fields(vec![
        key("id", uuid_node(1, 1)),
        key(
            "objects",
            Node::List(vec![prefab_ref_obj(vec![
                key("prefab_id", uuid_node(5, 5)),
                key(
                    "entity_overrides",
                    Node::List(vec![Node::Fields(vec![
                        key("component_overrides", Node::List(vec![])),
                        key("entity_id", uuid_node(7, 7)),
                    ])]),
                ),
            ])]),
        ),
    ]);
    let err = parse_prefab_calls(&doc).unwrap_err();
    assert!(matches!(err, PrefabError::FieldOrder(FieldName::EntityId)));
}

#[test]
fn diff_before_component_type_is_a_field_order_error() {
    let doc = Node::Fields(vec![
        key("id", uuid_node(1, 1)),
        key(
            "objects",
            Node::List(vec![prefab_ref_obj(vec![
                key("prefab_id", uuid_node(5, 5)),
                key(
                    "entity_overrides",
                    Node::List(vec![Node::Fields(vec![
                        key("entity_id", uuid_node(7, 7)),
                        key(
                            "component_overrides",
                            Node::List(vec![Node::Fields(vec![
                                key("diff", Node::Bytes(vec![1])),
                                key("component_type", uuid_node(3, 3)),
                            ])]),
                        ),
                    ])]),
                ),
            ])]),
        ),
    ]);
    let err = parse_prefab_calls(&doc).unwrap_err();
    assert!(matches!(
        err,
        PrefabError::FieldOrder(FieldName::ComponentType)
    ));
}

#[test]
fn missing_objects_is_reported() {
    let doc = Node::Fields(vec![key("id", uuid_node(1, 1))]);
    let err = parse_prefab_calls(&doc).unwrap_err();
    assert!(matches!(err, PrefabError::MissingField(FieldName::Objects)));
}

#[test]
fn missing_components_is_reported() {
    let doc = Node::Fields(vec![
        key("id", uuid_node(1, 1)),
        key(
            "objects",
            Node::List(vec![entity_obj(vec![key("id", uuid_node(2, 2))])]),
        ),
    ]);
    let err = parse_prefab_calls(&doc).unwrap_err();
    assert!(matches!(
        err,
        PrefabError::MissingField(FieldName::Components)
    ));
}

#[test]
fn unknown_key_is_reported() {
    let doc = Node::Fields(vec![
        key("id", uuid_node(1, 1)),
        key("flavor", Node::Bytes(vec![])),
    ]);
    let err = parse_prefab_calls(&doc).unwrap_err();
    match err {
        PrefabError::UnknownField(k) => assert_eq!(k, "flavor"),
        other => panic!("unexpected error {:?}", other),
    }
}

#[test]
fn unknown_variant_is_reported() {
    let doc = Node::Fields(vec![
        key("id", uuid_node(1, 1)),
        key(
            "objects",
            Node::List(vec![Node::Variant(
                "Gizmo".to_string(),
                Box::new(Node::Fields(vec![])),
            )]),
        ),
    ]);
    let err = parse_prefab_calls(&doc).unwrap_err();
    match err {
        PrefabError::UnknownVariant(t) => assert_eq!(t, "Gizmo"),
        other => panic!("unexpected error {:?}", other),
    }
}

#[test]
fn malformed_uuid_is_a_payload_error() {
    let doc = Node::Fields(vec![
        key("id", Node::Text("not-a-uuid".to_string())),
        key("objects", Node::List(vec![])),
    ]);
    let err = parse_prefab_calls(&doc).unwrap_err();
    assert!(matches!(
        err,
        PrefabError::PayloadParse(ParseCause::InvalidUuid)
    ));
}

#[test]
fn non_list_objects_is_a_payload_error() {
    let doc = Node::Fields(vec![
        key("id", uuid_node(1, 1)),
        key("objects", Node::Bytes(vec![])),
    ]);
    let err = parse_prefab_calls(&doc).unwrap_err();
    assert!(matches!(
        err,
        PrefabError::PayloadParse(ParseCause::ExpectedList)
    ));
}

#[test]
fn storage_error_is_carried_as_rejection() {
    let doc = Node::Fields(vec![
        key("id", uuid_node(1, 1)),
        key(
            "objects",
            Node::List(vec![entity_obj(vec![
                key("id", uuid_node(2, 2)),
                key(
                    "components",
                    Node::List(vec![Node::Fields(vec![
                        key("type", uuid_node(3, 3)),
                        key("data", Node::Bytes(vec![1])),
                    ])]),
                ),
            ])]),
        ),
    ]);
    let mut storage = Recorder::new();
    storage.fail = true;
    let de = PrefabDeserializer { storage: &storage };
    let err = de.deserialize(&doc).unwrap_err();
    match err {
        PrefabError::StorageRejected(msg) => assert_eq!(msg, "sink refused"),
        other => panic!("unexpected error {:?}", other),
    }
}

#[test]
fn text_uuid_parses_to_its_bytes() {
    let n = Node::Fields(vec![
        key("id", Node::Text("12345678-1234-5678-1234-567812345678".to_string())),
        key("objects", Node::List(vec![])),
    ]);
    // The parse must succeed, under the very value the canonical text denotes.
    assert!(parse_prefab_calls(&n).is_ok());
    let doc = Node::Fields(vec![
        key("id", Node::Text("12345678-1234-5678-1234-567812345678".to_string())),
        key(
            "objects",
            Node::List(vec![entity_obj(vec![
                key("id", uuid_node(2, 2)),
                key(
                    "components",
                    Node::List(vec![Node::Fields(vec![
                        key("type", uuid_node(3, 3)),
                        key("data", Node::Bytes(vec![1])),
                    ])]),
                ),
            ])]),
        ),
    ]);
    let calls = parse_prefab_calls(&doc).unwrap();
    match &calls[0] {
        StorageCall::DeserializeComponent { prefab, .. } => {
            assert_eq!(*prefab, uuid(0x1234567812345678, 0x1234567812345678));
        }
        other => panic!("unexpected call {:?}", other),
    }
}

#[test]
fn component_order_is_preserved() {
    let doc = Node::Fields(vec![
        key("id", uuid_node(1, 1)),
        key(
            "objects",
            Node::List(vec![entity_obj(vec![
                key("id", uuid_node(2, 2)),
                key(
                    "components",
                    Node::List(vec![
                        Node::Fields(vec![
                            key("type", uuid_node(3, 3)),
                            key("data", Node::Bytes(vec![1])),
                        ]),
                        Node::Fields(vec![
                            key("type", uuid_node(4, 4)),
                            key("data", Node::Bytes(vec![2])),
                        ]),
                    ]),
                ),
            ])]),
        ),
    ]);
    let calls = parse_prefab_calls(&doc).unwrap();
    assert_eq!(calls.len(), 2);
    let types: Vec<UuidValue> = calls
        .iter()
        .map(|c| match c {
            StorageCall::DeserializeComponent { component_type, .. } => *component_type,
            StorageCall::ApplyComponentDiff { component_type, .. } => *component_type,
        })
        .collect();
    assert_eq!(types, vec![uuid(3, 3), uuid(4, 4)]);
}

#[test]
fn unknown_key_after_the_data_field_is_rejected() {
    let doc = Node::Fields(vec![
        key("id", uuid_node(1, 1)),
        key(
            "objects",
            Node::List(vec![entity_obj(vec![
                key("id", uuid_node(2, 2)),
                key("components", Node::List(vec![])),
                key("flavor", Node::Bytes(vec![])),
            ])]),
        ),
    ]);
    let err = parse_prefab_calls(&doc).unwrap_err();
    match err {
        PrefabError::UnknownField(k) => assert_eq!(k, "flavor"),
        other => panic!("unexpected error {:?}", other),
    }
}

#[test]
fn duplicate_identifier_after_the_data_field_is_rejected() {
    let doc = Node::Fields(vec![
        key("id", uuid_node(1, 1)),
        key(
            "objects",
            Node::List(vec![entity_obj(vec![
                key("id", uuid_node(2, 2)),
                key(
                    "components",
                    Node::List(vec![Node::Fields(vec![
                        key("type", uuid_node(3, 3)),
                        key("data", Node::Bytes(vec![1])),
                        key("type", uuid_node(4, 4)),
                    ])]),
                ),
            ])]),
        ),
    ]);
    let err = parse_prefab_calls(&doc).unwrap_err();
    assert!(matches!(err, PrefabError::DuplicateField(FieldName::Type)));
}

#[test]
fn a_repeated_data_field_routes_again() {
    let doc = Node::Fields(vec![
        key("id", uuid_node(1, 1)),
        key(
            "objects",
            Node::List(vec![entity_obj(vec![
                key("id", uuid_node(2, 2)),
                key(
                    "components",
                    Node::List(vec![Node::Fields(vec![
                        key("type", uuid_node(3, 3)),
                        key("data", Node::Bytes(vec![1])),
                        key("data", Node::Bytes(vec![2])),
                    ])]),
                ),
            ])]),
        ),
    ]);
    let calls = parse_prefab_calls(&doc).unwrap();
    assert_eq!(calls.len(), 2);
    let payloads: Vec<&Node> = calls
        .iter()
        .map(|c| match c {
            StorageCall::DeserializeComponent { data, .. } => *data,
            StorageCall::ApplyComponentDiff { diff, .. } => *diff,
        })
        .collect();
    assert_eq!(*payloads[0], Node::Bytes(vec![1]));
    assert_eq!(*payloads[1], Node::Bytes(vec![2]));
}
