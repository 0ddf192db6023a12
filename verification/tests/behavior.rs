//! End-to-end behaviour of the store: entity lifecycle, references,
//! vouchers, nonce-guarded vectors, ownership transfer, and batches.

use content_directory::Actor;
use content_directory::AddSchemaSupportToEntityOperation;
use content_directory::Authority;
use content_directory::ClassPermissions;
use content_directory::CreateEntityOperation;
use content_directory::EntityController;
use content_directory::Error;
use content_directory::Event;
use content_directory::IdSet;
use content_directory::InputValidationLengthConstraint;
use content_directory::KvMap;
use content_directory::OperationType;
use content_directory::Origin;
use content_directory::ParametrizedClassPropertyValue;
use content_directory::ParametrizedEntity;
use content_directory::ParametrizedPropertyValue;
use content_directory::Property;
use content_directory::PropertyType;
use content_directory::PropertyValue;
use content_directory::SinglePropertyValue;
use content_directory::Store;
use content_directory::StoreConfig;
use content_directory::Type;
use content_directory::Value;
use content_directory::VecPropertyType;
use content_directory::VecPropertyValue;
use content_directory::VecValue;

const LEAD_ACCOUNT: u64 = 1;
const MEMBER_ID: u64 = 5;
const MEMBER_ACCOUNT: u64 = 50;
const MEMBER2_ID: u64 = 6;
const MEMBER2_ACCOUNT: u64 = 60;

fn test_config() -> StoreConfig {
    StoreConfig {
        max_number_of_classes: 100,
        max_number_of_maintainers_per_class: 5,
        max_number_of_curators_per_group: 5,
        number_of_schemas_per_class: 10,
        max_number_of_properties_per_class: 20,
        max_number_of_operations_during_atomic_batching: 10,
        vec_max_length_constraint: 10,
        text_max_length_constraint: 20,
        max_number_of_entities_per_class: 1000,
        individual_entities_creation_limit: 500,
        property_name_constraint: InputValidationLengthConstraint::new(1, 47),
        property_description_constraint: InputValidationLengthConstraint::new(1, 47),
        class_name_constraint: InputValidationLengthConstraint::new(1, 47),
        class_description_constraint: InputValidationLengthConstraint::new(1, 47),
    }
}

fn test_store() -> Store {
    let authority = Authority {
        lead_account: Some(LEAD_ACCOUNT),
        member_accounts: vec![(MEMBER_ID, MEMBER_ACCOUNT), (MEMBER2_ID, MEMBER2_ACCOUNT)],
        curator_accounts: vec![(7, 70)],
    };
    Store::new(test_config(), authority)
}

fn lead() -> Origin {
    Origin::Signed(LEAD_ACCOUNT)
}

fn member() -> Origin {
    Origin::Signed(MEMBER_ACCOUNT)
}

fn open_permissions() -> ClassPermissions {
    ClassPermissions::new(true, false, false, IdSet::new())
}

fn make_class(store: &mut Store) -> u64 {
    make_class_with_limits(store, 100, 10)
}

fn make_class_with_limits(store: &mut Store, max: u64, per: u64) -> u64 {
    let id = store.next_class_id;
    store
        .create_class(
            lead(),
            b"klass".to_vec(),
            b"a class".to_vec(),
            open_permissions(),
            max,
            per,
        )
        .unwrap();
    id
}

fn text_prop(name: &str, required: bool, unique: bool) -> Property {
    Property {
        prop_type: PropertyType::Single(Type::Text(20)),
        required,
        unique,
        name: name.as_bytes().to_vec(),
        description: b"d".to_vec(),
        locked_from_maintainer: false,
        locked_from_controller: false,
    }
}

fn ref_vec_prop(name: &str, target: u64, same_controller: bool) -> Property {
    Property {
        prop_type: PropertyType::Vector(VecPropertyType {
            vec_type: Type::Reference(target, same_controller),
            max_length: 10,
        }),
        required: false,
        unique: false,
        name: name.as_bytes().to_vec(),
        description: b"d".to_vec(),
        locked_from_maintainer: false,
        locked_from_controller: false,
    }
}

fn single_ref_prop(name: &str, target: u64, same_controller: bool) -> Property {
    Property {
        prop_type: PropertyType::Single(Type::Reference(target, same_controller)),
        required: false,
        unique: false,
        name: name.as_bytes().to_vec(),
        description: b"d".to_vec(),
        locked_from_maintainer: false,
        locked_from_controller: false,
    }
}

fn text_value(s: &str) -> PropertyValue {
    PropertyValue::Single(SinglePropertyValue::new(Value::Text(s.as_bytes().to_vec())))
}

fn one_value(pid: u64, v: PropertyValue) -> KvMap<PropertyValue> {
    let mut m: KvMap<PropertyValue> = KvMap::new();
    m.insert(pid, v);
    m
}

fn create_entity_as(store: &mut Store, class_id: u64, origin: Origin, actor: Actor) -> u64 {
    let id = store.next_entity_id;
    store.create_entity(origin, class_id, actor).unwrap();
    id
}

#[test]
fn create_use_delete_round_trip() {
    let mut store = test_store();
    let class_id = make_class(&mut store);
    store
        .add_class_schema(lead(), class_id, vec![], vec![text_prop("title", true, false)])
        .unwrap();
    let entity_id = create_entity_as(&mut store, class_id, lead(), Actor::Lead);
    assert_eq!(
        store.class_by_id.get(class_id).unwrap().current_number_of_entities,
        1
    );
    store
        .add_schema_support_to_entity(lead(), Actor::Lead, entity_id, 0, one_value(0, text_value("hi")))
        .unwrap();
    assert_eq!(
        store.entity_by_id.get(entity_id).unwrap().values.get(0),
        Some(&text_value("hi"))
    );
    store.remove_entity(lead(), Actor::Lead, entity_id).unwrap();
    assert!(store.entity_by_id.get(entity_id).is_none());
    assert_eq!(
        store.class_by_id.get(class_id).unwrap().current_number_of_entities,
        0
    );
}

#[test]
fn reference_prevents_delete_until_cleared() {
    let mut store = test_store();
    let class_b = make_class(&mut store);
    let class_a = make_class(&mut store);
    store
        .add_class_schema(lead(), class_a, vec![], vec![ref_vec_prop("rel", class_b, false)])
        .unwrap();
    let b = create_entity_as(&mut store, class_b, lead(), Actor::Lead);
    let a = create_entity_as(&mut store, class_a, lead(), Actor::Lead);
    let value = PropertyValue::Vector(VecPropertyValue::new(VecValue::Reference(vec![b]), 0));
    store
        .add_schema_support_to_entity(lead(), Actor::Lead, a, 0, one_value(0, value))
        .unwrap();
    assert_eq!(store.entity_by_id.get(b).unwrap().reference_count, 1);
    assert_eq!(
        store.remove_entity(lead(), Actor::Lead, b),
        Err(Error::EntityRcNonZero)
    );
    store.clear_entity_property_vector(lead(), Actor::Lead, a, 0).unwrap();
    assert_eq!(store.entity_by_id.get(b).unwrap().reference_count, 0);
    store.remove_entity(lead(), Actor::Lead, b).unwrap();
}

#[test]
fn same_owner_transfer_rewrites_both() {
    let mut store = test_store();
    let class_id = make_class(&mut store);
    store
        .add_class_schema(lead(), class_id, vec![], vec![single_ref_prop("next", class_id, true)])
        .unwrap();
    let actor = Actor::Member(MEMBER_ID);
    let a = create_entity_as(&mut store, class_id, member(), actor);
    let b = create_entity_as(&mut store, class_id, member(), actor);
    let value = PropertyValue::Single(SinglePropertyValue::new(Value::Reference(b)));
    store
        .add_schema_support_to_entity(member(), actor, a, 0, one_value(0, value))
        .unwrap();
    assert_eq!(
        store
            .entity_by_id
            .get(b)
            .unwrap()
            .inbound_same_owner_references_from_other_entities_count,
        1
    );
    // the root of the transfer must not itself be same-owner referenced
    assert_eq!(
        store.transfer_entity_ownership(lead(), b, EntityController::Member(MEMBER2_ID)),
        Err(Error::EntityRcNonZero)
    );
    store
        .transfer_entity_ownership(lead(), a, EntityController::Member(MEMBER2_ID))
        .unwrap();
    assert_eq!(
        store.entity_by_id.get(a).unwrap().entity_permission.controller,
        EntityController::Member(MEMBER2_ID)
    );
    assert_eq!(
        store.entity_by_id.get(b).unwrap().entity_permission.controller,
        EntityController::Member(MEMBER2_ID)
    );
}

#[test]
fn nonce_guard_rejects_stale_caller() {
    let mut store = test_store();
    let class_id = make_class(&mut store);
    let texts = Property {
        prop_type: PropertyType::Vector(VecPropertyType { vec_type: Type::Text(20), max_length: 10 }),
        required: false,
        unique: false,
        name: b"texts".to_vec(),
        description: b"d".to_vec(),
        locked_from_maintainer: false,
        locked_from_controller: false,
    };
    store.add_class_schema(lead(), class_id, vec![], vec![texts]).unwrap();
    let e = create_entity_as(&mut store, class_id, lead(), Actor::Lead);
    let value = PropertyValue::Vector(VecPropertyValue::new(VecValue::Text(vec![]), 0));
    store
        .add_schema_support_to_entity(lead(), Actor::Lead, e, 0, one_value(0, value))
        .unwrap();
    // another caller inserts under the current nonce; the vector version advances
    store
        .insert_at_entity_property_vector(
            lead(),
            Actor::Lead,
            e,
            0,
            0,
            SinglePropertyValue::new(Value::Text(b"x".to_vec())),
            0,
        )
        .unwrap();
    // the original caller still holds the old nonce and is rejected
    assert_eq!(
        store.remove_at_entity_property_vector(lead(), Actor::Lead, e, 0, 0, 0),
        Err(Error::NonceMismatch)
    );
    store
        .remove_at_entity_property_vector(lead(), Actor::Lead, e, 0, 0, 1)
        .unwrap();
}

#[test]
fn insert_then_remove_restores_vector_and_advances_nonce() {
    let mut store = test_store();
    let class_id = make_class(&mut store);
    let texts = Property {
        prop_type: PropertyType::Vector(VecPropertyType { vec_type: Type::Text(20), max_length: 10 }),
        required: false,
        unique: false,
        name: b"texts".to_vec(),
        description: b"d".to_vec(),
        locked_from_maintainer: false,
        locked_from_controller: false,
    };
    store.add_class_schema(lead(), class_id, vec![], vec![texts]).unwrap();
    let e = create_entity_as(&mut store, class_id, lead(), Actor::Lead);
    let value = PropertyValue::Vector(VecPropertyValue::new(
        VecValue::Text(vec![b"keep".to_vec()]),
        0,
    ));
    store
        .add_schema_support_to_entity(lead(), Actor::Lead, e, 0, one_value(0, value))
        .unwrap();
    store
        .insert_at_entity_property_vector(
            lead(),
            Actor::Lead,
            e,
            0,
            1,
            SinglePropertyValue::new(Value::Text(b"temp".to_vec())),
            0,
        )
        .unwrap();
    store
        .remove_at_entity_property_vector(lead(), Actor::Lead, e, 0, 1, 1)
        .unwrap();
    let stored = store.entity_by_id.get(e).unwrap().values.get(0).unwrap();
    assert_eq!(
        stored,
        &PropertyValue::Vector(VecPropertyValue::new(
            VecValue::Text(vec![b"keep".to_vec()]),
            2,
        ))
    );
}

#[test]
fn update_with_current_values_is_a_noop() {
    let mut store = test_store();
    let class_id = make_class(&mut store);
    store
        .add_class_schema(lead(), class_id, vec![], vec![text_prop("title", true, false)])
        .unwrap();
    let e = create_entity_as(&mut store, class_id, lead(), Actor::Lead);
    store
        .add_schema_support_to_entity(lead(), Actor::Lead, e, 0, one_value(0, text_value("hi")))
        .unwrap();
    let events_before = store.events.len();
    store
        .update_entity_property_values(lead(), Actor::Lead, e, one_value(0, text_value("hi")))
        .unwrap();
    assert_eq!(store.events.len(), events_before);
    assert_eq!(
        store.entity_by_id.get(e).unwrap().values.get(0),
        Some(&text_value("hi"))
    );
}

#[test]
fn update_replaces_value_and_emits_event() {
    let mut store = test_store();
    let class_id = make_class(&mut store);
    store
        .add_class_schema(lead(), class_id, vec![], vec![text_prop("title", true, false)])
        .unwrap();
    let e = create_entity_as(&mut store, class_id, lead(), Actor::Lead);
    store
        .add_schema_support_to_entity(lead(), Actor::Lead, e, 0, one_value(0, text_value("hi")))
        .unwrap();
    store
        .update_entity_property_values(lead(), Actor::Lead, e, one_value(0, text_value("ho")))
        .unwrap();
    assert_eq!(
        store.entity_by_id.get(e).unwrap().values.get(0),
        Some(&text_value("ho"))
    );
    assert_eq!(
        store.events.last(),
        Some(&Event::EntityPropertyValuesUpdated(Actor::Lead, e))
    );
}

#[test]
fn deactivate_then_reactivate_schema_leaves_entities_alone() {
    let mut store = test_store();
    let class_id = make_class(&mut store);
    store
        .add_class_schema(lead(), class_id, vec![], vec![text_prop("title", true, false)])
        .unwrap();
    let e = create_entity_as(&mut store, class_id, lead(), Actor::Lead);
    store
        .add_schema_support_to_entity(lead(), Actor::Lead, e, 0, one_value(0, text_value("hi")))
        .unwrap();
    store.update_class_schema_status(lead(), class_id, 0, false).unwrap();
    assert!(!store.class_by_id.get(class_id).unwrap().schemas[0].is_active);
    // a deactivated schema refuses new support
    let e2 = create_entity_as(&mut store, class_id, lead(), Actor::Lead);
    assert_eq!(
        store.add_schema_support_to_entity(lead(), Actor::Lead, e2, 0, one_value(0, text_value("x"))),
        Err(Error::SchemaNotActive)
    );
    store.update_class_schema_status(lead(), class_id, 0, true).unwrap();
    assert!(store.class_by_id.get(class_id).unwrap().schemas[0].is_active);
    let entity = store.entity_by_id.get(e).unwrap();
    assert_eq!(entity.values.get(0), Some(&text_value("hi")));
    assert!(entity.supported_schemas.contains(0));
}

#[test]
fn voucher_ceiling_limits_and_can_be_raised() {
    let mut store = test_store();
    let class_id = make_class_with_limits(&mut store, 100, 10);
    let controller = EntityController::Member(MEMBER_ID);
    let actor = Actor::Member(MEMBER_ID);
    // the lead narrows the member's voucher to three entities
    store
        .update_entity_creation_voucher(lead(), class_id, controller, 3)
        .unwrap();
    for _ in 0..3 {
        create_entity_as(&mut store, class_id, member(), actor);
    }
    assert_eq!(
        store.create_entity(member(), class_id, actor),
        Err(Error::VoucherLimitReached)
    );
    // raising the voucher within the class's per-controller limit unblocks
    store
        .update_entity_creation_voucher(lead(), class_id, controller, 5)
        .unwrap();
    create_entity_as(&mut store, class_id, member(), actor);
    create_entity_as(&mut store, class_id, member(), actor);
    assert_eq!(
        store.create_entity(member(), class_id, actor),
        Err(Error::VoucherLimitReached)
    );
}

#[test]
fn batch_with_forward_references_links_created_entities() {
    let mut store = test_store();
    let class_b = make_class(&mut store);
    let class_a = make_class(&mut store);
    store
        .add_class_schema(lead(), class_a, vec![], vec![single_ref_prop("rel", class_b, false)])
        .unwrap();
    let a = store.next_entity_id;
    let b = a + 1;
    let ops = vec![
        OperationType::CreateEntity(CreateEntityOperation { class_id: class_a }),
        OperationType::CreateEntity(CreateEntityOperation { class_id: class_b }),
        OperationType::AddSchemaSupportToEntity(AddSchemaSupportToEntityOperation {
            entity_id: ParametrizedEntity::InternalEntityJustAdded(0),
            schema_id: 0,
            parametrized_property_values: vec![ParametrizedClassPropertyValue {
                in_class_index: 0,
                value: ParametrizedPropertyValue::InternalEntityJustAdded(1),
            }],
        }),
    ];
    store.transaction(lead(), Actor::Lead, ops).unwrap();
    assert_eq!(
        store.entity_by_id.get(a).unwrap().values.get(0),
        Some(&PropertyValue::Single(SinglePropertyValue::new(Value::Reference(b))))
    );
    assert_eq!(store.entity_by_id.get(b).unwrap().reference_count, 1);
    assert_eq!(
        store.events.last(),
        Some(&Event::TransactionCompleted(Actor::Lead))
    );
}

#[test]
fn batch_fails_on_unresolved_internal_reference() {
    let mut store = test_store();
    let class_a = make_class(&mut store);
    let ops = vec![OperationType::AddSchemaSupportToEntity(AddSchemaSupportToEntityOperation {
        entity_id: ParametrizedEntity::InternalEntityJustAdded(4),
        schema_id: 0,
        parametrized_property_values: vec![],
    })];
    assert_eq!(
        store.transaction(lead(), Actor::Lead, ops),
        Err(Error::InternalEntityReferencesOutOfBounds)
    );
    let _ = class_a;
}

#[test]
fn curator_group_lifecycle() {
    let mut store = test_store();
    store.add_curator_group(lead()).unwrap();
    assert!(store.curator_group_by_id.get(0).is_some());
    store.set_curator_group_status(lead(), 0, true).unwrap();
    assert!(store.curator_group_by_id.get(0).unwrap().active);
    store.add_curator_to_group(lead(), 0, 7).unwrap();
    assert!(store.curator_group_by_id.get(0).unwrap().curators.contains(7));
    let class_id = make_class(&mut store);
    store.add_maintainer_to_class(lead(), class_id, 0).unwrap();
    assert_eq!(
        store.curator_group_by_id.get(0).unwrap().number_of_classes_maintained,
        1
    );
    // a maintaining group cannot be removed
    assert_eq!(
        store.remove_curator_group(lead(), 0),
        Err(Error::CuratorGroupMaintainsClass)
    );
    // a curator of the maintainer group may create entities
    let curator_actor = Actor::Curator(0, 7);
    let e = create_entity_as(&mut store, class_id, Origin::Signed(70), curator_actor);
    assert!(store.entity_by_id.get(e).is_some());
    assert_eq!(
        store.entity_by_id.get(e).unwrap().entity_permission.controller,
        EntityController::CuratorGroup(0)
    );
    store.remove_maintainer_from_class(lead(), class_id, 0).unwrap();
    store.remove_curator_from_group(lead(), 0, 7).unwrap();
    store.remove_curator_group(lead(), 0).unwrap();
    assert!(store.curator_group_by_id.get(0).is_none());
}

#[test]
fn counting_occurrences_of_ids() {
    let counts = Store::count_element_function(&vec![4, 4, 9, 4, 9]);
    assert_eq!(counts.get(4), Some(&3));
    assert_eq!(counts.get(9), Some(&2));
    assert_eq!(counts.get(1), None);
}

#[test]
fn class_permissions_update_toggles_flags() {
    let mut store = test_store();
    let class_id = make_class(&mut store);
    store
        .update_class_permissions(lead(), class_id, Some(false), Some(true), None, None)
        .unwrap();
    let class = store.class_by_id.get(class_id).unwrap();
    assert!(!class.class_permissions.any_member);
    assert!(class.class_permissions.entity_creation_blocked);
    assert_eq!(
        store.create_entity(member(), class_id, Actor::Member(MEMBER_ID)),
        Err(Error::EntityCreationBlocked)
    );
}

#[test]
fn id_counters_are_monotone_and_never_reused() {
    let mut store = test_store();
    let class_id = make_class(&mut store);
    let e0 = create_entity_as(&mut store, class_id, lead(), Actor::Lead);
    store.remove_entity(lead(), Actor::Lead, e0).unwrap();
    // the removed entity's id is not reissued
    let e1 = create_entity_as(&mut store, class_id, lead(), Actor::Lead);
    assert_ne!(e0, e1);
    assert!(e1 > e0);
}

#[test]
fn maintainer_group_curator_may_edit_entities() {
    let mut store = test_store();
    store.add_curator_group(lead()).unwrap();
    store.set_curator_group_status(lead(), 0, true).unwrap();
    store.add_curator_to_group(lead(), 0, 7).unwrap();
    let class_id = make_class(&mut store);
    store.add_maintainer_to_class(lead(), class_id, 0).unwrap();
    store
        .add_class_schema(lead(), class_id, vec![], vec![text_prop("title", true, false)])
        .unwrap();
    // the member controls the entity; the curator maintains its class
    let e = create_entity_as(&mut store, class_id, member(), Actor::Member(MEMBER_ID));
    store
        .add_schema_support_to_entity(
            member(),
            Actor::Member(MEMBER_ID),
            e,
            0,
            one_value(0, text_value("hi")),
        )
        .unwrap();
    store
        .update_entity_property_values(
            Origin::Signed(70),
            Actor::Curator(0, 7),
            e,
            one_value(0, text_value("ho")),
        )
        .unwrap();
    assert_eq!(
        store.entity_by_id.get(e).unwrap().values.get(0),
        Some(&text_value("ho"))
    );
    // a curator of an inactive group loses access
    store.set_curator_group_status(lead(), 0, false).unwrap();
    assert_eq!(
        store.update_entity_property_values(
            Origin::Signed(70),
            Actor::Curator(0, 7),
            e,
            one_value(0, text_value("he")),
        ),
        Err(Error::AccessDenied)
    );
}

#[test]
fn any_member_access_cannot_remove_entities() {
    let mut store = test_store();
    let class_id = make_class(&mut store);
    // the entity belongs to one member; another member holds only the
    // class-wide any-member permission
    let e = create_entity_as(&mut store, class_id, member(), Actor::Member(MEMBER_ID));
    assert_eq!(
        store.remove_entity(
            Origin::Signed(MEMBER2_ACCOUNT),
            Actor::Member(MEMBER2_ID),
            e,
        ),
        Err(Error::AccessDenied)
    );
    // the controller may remove it
    store.remove_entity(member(), Actor::Member(MEMBER_ID), e).unwrap();
}

#[test]
fn voucher_events_report_created_and_updated() {
    let mut store = test_store();
    let class_id = make_class(&mut store);
    let controller = EntityController::Member(MEMBER_ID);
    store
        .update_entity_creation_voucher(lead(), class_id, controller, 4)
        .unwrap();
    assert!(matches!(
        store.events.last(),
        Some(Event::EntityCreationVoucherCreated(_, _))
    ));
    store
        .update_entity_creation_voucher(lead(), class_id, controller, 6)
        .unwrap();
    assert!(matches!(
        store.events.last(),
        Some(Event::EntityCreationVoucherUpdated(_, _))
    ));
}
