use prefab_format::CookedPrefab;
use prefab_format::ComponentRegistration;
use prefab_format::DiffPayload;
use prefab_format::DiffSingleResult;
use prefab_format::Node;
use prefab_format::PrefabError;
use prefab_format::Registry;
use prefab_format::UuidValue;
use prefab_format::World;
use prefab_format::diff::apply_diff_value;
use prefab_format::diff::diff_values;
use prefab_format::ids::parse_uuid_text;

fn uuid(hi: u64, lo: u64) -> UuidValue {
    UuidValue { hi, lo }
}

fn position_kind() -> ComponentRegistration {
    ComponentRegistration::of(10, uuid(0xa, 0xa), 100, "Position".to_string(), vec![0, 0])
}

fn tag_kind() -> ComponentRegistration {
    ComponentRegistration::of(11, uuid(0xb, 0xb), 101, "Tag".to_string(), vec![])
}

fn demo_registry() -> Registry {
    let mut registry = Registry::new();
    assert!(registry.register(position_kind()));
    assert!(registry.register(tag_kind()));
    registry
}

#[test]
fn registering_a_kind_twice_is_refused() {
    let mut registry = Registry::new();
    assert!(registry.register(position_kind()));
    assert!(!registry.register(position_kind()));
    assert_eq!(registry.len(), 1);
}

#[test]
fn lookups_by_uuid_and_by_type_token_agree() {
    let registry = demo_registry();
    let by_uuid = registry.registration_by_uuid(&uuid(0xa, 0xa)).unwrap();
    let ty = by_uuid.ty();
    let id_from_uuid = by_uuid.component_type_id();
    let by_ty = registry.registration_by_ty(ty).unwrap();
    assert_eq!(by_ty.component_type_id(), id_from_uuid);
    assert_eq!(by_ty.uuid(), &uuid(0xa, 0xa));
}

#[test]
fn unknown_uuid_resolves_to_nothing() {
    let registry = demo_registry();
    assert!(registry.registration_by_uuid(&uuid(0xff, 0xff)).is_none());
}

#[test]
fn attach_fetch_replace_and_detach() {
    let registry = demo_registry();
    let position = registry.registration_by_uuid(&uuid(0xa, 0xa)).unwrap();
    let mut world = World::new();
    let e = world.push_entity();
    position.add_to_entity(&vec![1, 2], &mut world, e);
    assert_eq!(position.serialize_single(&world, e), vec![1, 2]);
    position.add_to_entity(&vec![3, 4], &mut world, e);
    assert_eq!(position.serialize_single(&world, e), vec![3, 4]);
    position.remove_from_entity(&mut world, e);
    assert!(world.entities[e].get_component(uuid(0xa, 0xa)).is_none());
}

#[test]
fn add_default_uses_the_registered_default() {
    let registry = demo_registry();
    let position = registry.registration_by_uuid(&uuid(0xa, 0xa)).unwrap();
    let mut world = World::new();
    let e = world.push_entity();
    position.add_default_to_entity(&mut world, e);
    assert_eq!(position.serialize_single(&world, e), vec![0, 0]);
}

#[test]
fn diff_of_equal_values_reports_no_change_and_applies_to_itself() {
    let x = vec![5, 6, 7];
    let (outcome, payload) = diff_values(Some(&x), Some(&x));
    assert_eq!(outcome, DiffSingleResult::NoChange);
    assert!(matches!(payload, DiffPayload::FieldDiff(None)));
    assert_eq!(apply_diff_value(&x, &payload), x);
}

#[test]
fn diff_of_different_values_reports_change_and_applies_to_destination() {
    let x = vec![5, 6, 7];
    let y = vec![5, 6, 8];
    let (outcome, payload) = diff_values(Some(&x), Some(&y));
    assert_eq!(outcome, DiffSingleResult::Change);
    match &payload {
        DiffPayload::FieldDiff(Some(n)) => assert_eq!(*n, y),
        other => panic!("unexpected payload {:?}", other),
    }
    assert_eq!(apply_diff_value(&x, &payload), y);
}

#[test]
fn add_and_remove_are_symmetric() {
    let y = vec![1, 2];
    let (outcome, payload) = diff_values(None, Some(&y));
    assert_eq!(outcome, DiffSingleResult::Add);
    match payload {
        DiffPayload::Full(v) => assert_eq!(v, y),
        other => panic!("unexpected payload {:?}", other),
    }
    let (outcome, payload) = diff_values(Some(&y), None);
    assert_eq!(outcome, DiffSingleResult::Remove);
    assert!(matches!(payload, DiffPayload::Empty));
    let (outcome, payload) = diff_values(None, None);
    assert_eq!(outcome, DiffSingleResult::NoChange);
    assert!(matches!(payload, DiffPayload::Empty));
}

#[test]
fn diff_single_inspects_both_worlds() {
    let registry = demo_registry();
    let position = registry.registration_by_uuid(&uuid(0xa, 0xa)).unwrap();
    let mut src = World::new();
    let se = src.push_entity();
    position.add_to_entity(&vec![1], &mut src, se);
    let mut dst = World::new();
    let de = dst.push_entity();
    position.add_to_entity(&vec![2], &mut dst, de);
    let (outcome, _) = position.diff_single(&src, Some(se), &dst, Some(de));
    assert_eq!(outcome, DiffSingleResult::Change);
    let (outcome, _) = position.diff_single(&src, None, &dst, Some(de));
    assert_eq!(outcome, DiffSingleResult::Add);
    let (outcome, _) = position.diff_single(&src, Some(se), &dst, None);
    assert_eq!(outcome, DiffSingleResult::Remove);
}

#[test]
fn apply_diff_replaces_the_component_value() {
    let registry = demo_registry();
    let position = registry.registration_by_uuid(&uuid(0xa, 0xa)).unwrap();
    let mut world = World::new();
    let e = world.push_entity();
    position.add_to_entity(&vec![1], &mut world, e);
    let payload = DiffPayload::FieldDiff(Some(vec![9]));
    position.apply_diff(&payload, &mut world, e);
    assert_eq!(position.serialize_single(&world, e), vec![9]);
    let unchanged = DiffPayload::FieldDiff(None);
    position.apply_diff(&unchanged, &mut world, e);
    assert_eq!(position.serialize_single(&world, e), vec![9]);
}

fn demo_cooked() -> CookedPrefab {
    let registry = demo_registry();
    let position = registry.registration_by_uuid(&uuid(0xa, 0xa)).unwrap();
    let tag = registry.registration_by_uuid(&uuid(0xb, 0xb)).unwrap();
    let mut world = World::new();
    let e0 = world.push_entity();
    let e1 = world.push_entity();
    position.add_to_entity(&vec![1, 2], &mut world, e0);
    tag_add(tag, &mut world, e0, vec![b'a']);
    position.add_to_entity(&vec![3, 4], &mut world, e1);
    tag_add(tag, &mut world, e1, vec![b'b']);
    CookedPrefab {
        world,
        entities: vec![(uuid(100, 0), e0), (uuid(200, 0), e1)],
    }
}

fn tag_add(reg: &ComponentRegistration, world: &mut World, e: usize, v: Vec<u8>) {
    reg.add_to_entity(&v, world, e);
}

#[test]
fn cooked_round_trip_preserves_the_identity_map() {
    let registry = demo_registry();
    let cooked = demo_cooked();
    let doc = cooked.serialize();
    let back = CookedPrefab::deserialize(&doc, &registry).unwrap();
    assert_eq!(back.entities.len(), cooked.entities.len());
    for (u, h) in &cooked.entities {
        let (_, h2) = back
            .entities
            .iter()
            .find(|(u2, _)| u2 == u)
            .expect("identity lost in round trip");
        let original = &cooked.world.entities[*h];
        let reread = &back.world.entities[*h2];
        assert_eq!(original.components.len(), reread.components.len());
        for (t, v) in &original.components {
            assert_eq!(reread.get_component(*t), Some(v));
        }
    }
}

#[test]
fn cooked_document_has_one_world_field() {
    let cooked = demo_cooked();
    let doc = cooked.serialize();
    match doc {
        Node::Fields(f) => {
            assert_eq!(f.len(), 1);
            assert_eq!(f[0].0, "world");
        }
        other => panic!("unexpected document {:?}", other),
    }
}

#[test]
fn unknown_component_type_fails_the_cooked_read() {
    let cooked = demo_cooked();
    let doc = cooked.serialize();
    let empty = Registry::new();
    let err = match CookedPrefab::deserialize(&doc, &empty) {
        Ok(_) => panic!("read should fail on an unregistered kind"),
        Err(e) => e,
    };
    match err {
        PrefabError::UnknownComponentType(t) => assert_eq!(t, uuid(0xa, 0xa)),
        other => panic!("unexpected error {:?}", other),
    }
}

#[test]
fn unmapped_entity_is_written_under_a_fresh_identity() {
    let registry = demo_registry();
    let mut world = World::new();
    let _e = world.push_entity();
    let cooked = CookedPrefab {
        world,
        entities: vec![],
    };
    let doc = cooked.serialize();
    let back = CookedPrefab::deserialize(&doc, &registry).unwrap();
    assert_eq!(back.entities.len(), 1);
    assert_eq!(back.world.entities.len(), 1);
}

#[test]
fn canonical_uuid_text_parses_to_its_big_endian_halves() {
    let parsed = parse_uuid_text("12345678-1234-5678-1234-567812345678").unwrap();
    assert_eq!(parsed, uuid(0x1234567812345678, 0x1234567812345678));
    assert!(parse_uuid_text("not a uuid").is_none());
}

#[test]
fn uuid_bytes_round_trip() {
    let u = uuid(0x0102030405060708, 0x090a0b0c0d0e0f10);
    let b = u.to_bytes();
    assert_eq!(
        b,
        vec![1, 2, 3, 4, 5, 6, 7, 8, 9, 0x0a, 0x0b, 0x0c, 0x0d, 0x0e, 0x0f, 0x10]
    );
    assert_eq!(UuidValue::from_bytes(&b), Some(u));
    assert_eq!(UuidValue::from_bytes(&vec![1, 2, 3]), None);
}

#[test]
fn clone_components_copies_a_range() {
    let registry = demo_registry();
    let position = registry.registration_by_uuid(&uuid(0xa, 0xa)).unwrap();
    let mut src = World::new();
    let mut dst = World::new();
    for i in 0..3 {
        let e = src.push_entity();
        position.add_to_entity(&vec![i as u8], &mut src, e);
        dst.push_entity();
    }
    position.clone_components(&src, 1, 3, &mut dst);
    assert!(dst.entities[0].get_component(uuid(0xa, 0xa)).is_none());
    assert_eq!(dst.entities[1].get_component(uuid(0xa, 0xa)), Some(&vec![1]));
    assert_eq!(dst.entities[2].get_component(uuid(0xa, 0xa)), Some(&vec![2]));
}

#[test]
fn reserializing_a_reread_prefab_keeps_its_content() {
    let registry = demo_registry();
    let cooked = demo_cooked();
    let first = cooked.serialize();
    let back = CookedPrefab::deserialize(&first, &registry).unwrap();
    let second = back.serialize();
    let again = CookedPrefab::deserialize(&second, &registry).unwrap();
    assert_eq!(again.entities, back.entities);
    for (e, rec) in back.world.entities.iter().enumerate() {
        assert_eq!(again.world.entities[e].components, rec.components);
    }
}

#[test]
fn a_document_without_the_world_field_is_missing_it() {
    let registry = demo_registry();
    let doc = Node::Fields(vec![]);
    let err = match CookedPrefab::deserialize(&doc, &registry) {
        Ok(_) => panic!("read should fail without a world field"),
        Err(e) => e,
    };
    assert!(matches!(
        err,
        PrefabError::MissingField(prefab_format::FieldName::World)
    ));
}

#[test]
fn registering_a_duplicate_storage_key_is_refused() {
    let mut registry = Registry::new();
    assert!(registry.register(position_kind()));
    // Distinct UUID and type token, but the same ECS-level storage key.
    let clash = ComponentRegistration::of(10, uuid(0xc, 0xc), 102, "Clash".to_string(), vec![]);
    assert!(!registry.register(clash));
    assert_eq!(registry.len(), 1);
    assert_eq!(
        registry.registration_by_component_type_id(10).unwrap().uuid(),
        &uuid(0xa, 0xa)
    );
}
