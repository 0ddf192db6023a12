//! One test per error the store surfaces: each gives an input on which the
//! call fails with exactly that error and changes nothing.

use content_directory::Actor;
use content_directory::Authority;
use content_directory::ClassPermissions;
use content_directory::CreateEntityOperation;
use content_directory::EntityController;
use content_directory::Error;
use content_directory::IdSet;
use content_directory::InputValidationLengthConstraint;
use content_directory::KvMap;
use content_directory::OperationType;
use content_directory::Origin;
use content_directory::Property;
use content_directory::PropertyType;
use content_directory::PropertyValue;
use content_directory::SinglePropertyValue;
use content_directory::Store;
use content_directory::StoreConfig;
use content_directory::Type;
use content_directory::Value;
use content_directory::VecPropertyType;
use content_directory::VecPropertyValue;
use content_directory::VecValue;

const LEAD_ACCOUNT: u64 = 1;
const MEMBER_ID: u64 = 5;
const MEMBER_ACCOUNT: u64 = 50;
const MEMBER2_ID: u64 = 6;
const MEMBER2_ACCOUNT: u64 = 60;

fn config_with(
    max_classes: u32,
    max_maintainers: u32,
    max_curators: u32,
    max_schemas: u32,
    max_properties: u32,
    max_batch: u32,
) -> StoreConfig {
    StoreConfig {
        max_number_of_classes: max_classes,
        max_number_of_maintainers_per_class: max_maintainers,
        max_number_of_curators_per_group: max_curators,
        number_of_schemas_per_class: max_schemas,
        max_number_of_properties_per_class: max_properties,
        max_number_of_operations_during_atomic_batching: max_batch,
        vec_max_length_constraint: 10,
        text_max_length_constraint: 20,
        max_number_of_entities_per_class: 1000,
        individual_entities_creation_limit: 500,
        property_name_constraint: InputValidationLengthConstraint::new(1, 47),
        property_description_constraint: InputValidationLengthConstraint::new(1, 47),
        class_name_constraint: InputValidationLengthConstraint::new(2, 46),
        class_description_constraint: InputValidationLengthConstraint::new(2, 46),
    }
}

fn test_config() -> StoreConfig {
    config_with(100, 5, 5, 10, 20, 10)
}

fn store_with(config: StoreConfig) -> Store {
    let authority = Authority {
        lead_account: Some(LEAD_ACCOUNT),
        member_accounts: vec![(MEMBER_ID, MEMBER_ACCOUNT), (MEMBER2_ID, MEMBER2_ACCOUNT)],
        curator_accounts: vec![(7, 70)],
    };
    Store::new(config, authority)
}

fn test_store() -> Store {
    store_with(test_config())
}

fn lead() -> Origin {
    Origin::Signed(LEAD_ACCOUNT)
}

fn member() -> Origin {
    Origin::Signed(MEMBER_ACCOUNT)
}

fn open_permissions() -> ClassPermissions {
    ClassPermissions::new(true, false, false, IdSet::new())
}

fn make_class(store: &mut Store) -> u64 {
    let id = store.next_class_id;
    store
        .create_class(lead(), b"klass".to_vec(), b"a class".to_vec(), open_permissions(), 100, 10)
        .unwrap();
    id
}

fn text_prop(name: &str, required: bool, unique: bool) -> Property {
    Property {
        prop_type: PropertyType::Single(Type::Text(20)),
        required,
        unique,
        name: name.as_bytes().to_vec(),
        description: b"d".to_vec(),
        locked_from_maintainer: false,
        locked_from_controller: false,
    }
}

fn text_value(s: &str) -> PropertyValue {
    PropertyValue::Single(SinglePropertyValue::new(Value::Text(s.as_bytes().to_vec())))
}

fn one_value(pid: u64, v: PropertyValue) -> KvMap<PropertyValue> {
    let mut m: KvMap<PropertyValue> = KvMap::new();
    m.insert(pid, v);
    m
}

fn entity_with_text(store: &mut Store) -> (u64, u64) {
    let class_id = make_class(store);
    store
        .add_class_schema(lead(), class_id, vec![], vec![text_prop("title", true, false)])
        .unwrap();
    let e = store.next_entity_id;
    store.create_entity(lead(), class_id, Actor::Lead).unwrap();
    store
        .add_schema_support_to_entity(lead(), Actor::Lead, e, 0, one_value(0, text_value("hi")))
        .unwrap();
    (class_id, e)
}

#[test]
fn class_not_found() {
    let mut store = test_store();
    assert_eq!(
        store.create_entity(lead(), 42, Actor::Lead),
        Err(Error::ClassNotFound)
    );
}

#[test]
fn entity_not_found() {
    let mut store = test_store();
    assert_eq!(
        store.remove_entity(lead(), Actor::Lead, 9),
        Err(Error::EntityNotFound)
    );
}

#[test]
fn curator_group_not_found() {
    let mut store = test_store();
    assert_eq!(
        store.set_curator_group_status(lead(), 3, true),
        Err(Error::CuratorGroupNotFound)
    );
}

#[test]
fn unknown_schema_id() {
    let mut store = test_store();
    let class_id = make_class(&mut store);
    assert_eq!(
        store.update_class_schema_status(lead(), class_id, 2, false),
        Err(Error::UnknownSchemaId)
    );
}

#[test]
fn unknown_property_id_on_update() {
    let mut store = test_store();
    let (_, e) = entity_with_text(&mut store);
    assert_eq!(
        store.update_entity_property_values(lead(), Actor::Lead, e, one_value(9, text_value("x"))),
        Err(Error::UnknownPropertyId)
    );
}

#[test]
fn access_denied_for_non_lead() {
    let mut store = test_store();
    assert_eq!(
        store.create_class(member(), b"kk".to_vec(), b"dd".to_vec(), open_permissions(), 10, 5),
        Err(Error::AccessDenied)
    );
    assert_eq!(store.add_curator_group(Origin::Unsigned), Err(Error::AccessDenied));
}

#[test]
fn access_denied_for_wrong_account() {
    let mut store = test_store();
    let class_id = make_class(&mut store);
    // the account does not own the member id it claims
    assert_eq!(
        store.create_entity(Origin::Signed(MEMBER2_ACCOUNT), class_id, Actor::Member(MEMBER_ID)),
        Err(Error::AccessDenied)
    );
}

#[test]
fn entity_frozen_blocks_controller() {
    let mut store = test_store();
    let class_id = make_class(&mut store);
    store
        .add_class_schema(lead(), class_id, vec![], vec![text_prop("title", true, false)])
        .unwrap();
    let e = store.next_entity_id;
    store.create_entity(member(), class_id, Actor::Member(MEMBER_ID)).unwrap();
    store.update_entity_permissions(lead(), e, Some(true), None).unwrap();
    assert_eq!(
        store.add_schema_support_to_entity(
            member(),
            Actor::Member(MEMBER_ID),
            e,
            0,
            one_value(0, text_value("hi")),
        ),
        Err(Error::EntityFrozen)
    );
}

#[test]
fn entity_creation_blocked() {
    let mut store = test_store();
    let class_id = make_class(&mut store);
    store
        .update_class_permissions(lead(), class_id, None, Some(true), None, None)
        .unwrap();
    assert_eq!(
        store.create_entity(lead(), class_id, Actor::Lead),
        Err(Error::EntityCreationBlocked)
    );
}

#[test]
fn property_locked_for_actor() {
    let mut store = test_store();
    let class_id = make_class(&mut store);
    let mut locked = text_prop("title", true, false);
    locked.locked_from_controller = true;
    store.add_class_schema(lead(), class_id, vec![], vec![locked]).unwrap();
    let e = store.next_entity_id;
    store.create_entity(lead(), class_id, Actor::Lead).unwrap();
    store
        .add_schema_support_to_entity(lead(), Actor::Lead, e, 0, one_value(0, text_value("hi")))
        .unwrap();
    assert_eq!(
        store.update_entity_property_values(lead(), Actor::Lead, e, one_value(0, text_value("ho"))),
        Err(Error::PropertyLockedForActor)
    );
}

#[test]
fn all_properties_locked_at_class_level() {
    let mut store = test_store();
    let (class_id, e) = entity_with_text(&mut store);
    store
        .update_class_permissions(lead(), class_id, None, None, Some(true), None)
        .unwrap();
    assert_eq!(
        store.update_entity_property_values(lead(), Actor::Lead, e, one_value(0, text_value("ho"))),
        Err(Error::AllPropertiesLockedAtClassLevel)
    );
}

#[test]
fn class_limit_reached() {
    let mut store = store_with(config_with(1, 5, 5, 10, 20, 10));
    make_class(&mut store);
    assert_eq!(
        store.create_class(lead(), b"more".to_vec(), b"dd".to_vec(), open_permissions(), 10, 5),
        Err(Error::ClassLimitReached)
    );
}

#[test]
fn schemas_limit_reached() {
    let mut store = store_with(config_with(100, 5, 5, 1, 20, 10));
    let class_id = make_class(&mut store);
    store
        .add_class_schema(lead(), class_id, vec![], vec![text_prop("one", false, false)])
        .unwrap();
    assert_eq!(
        store.add_class_schema(lead(), class_id, vec![], vec![text_prop("two", false, false)]),
        Err(Error::SchemasLimitReached)
    );
}

#[test]
fn properties_limit_reached() {
    let mut store = store_with(config_with(100, 5, 5, 10, 1, 10));
    let class_id = make_class(&mut store);
    assert_eq!(
        store.add_class_schema(
            lead(),
            class_id,
            vec![],
            vec![text_prop("one", false, false), text_prop("two", false, false)],
        ),
        Err(Error::PropertiesLimitReached)
    );
}

#[test]
fn maintainers_limit_reached() {
    let mut store = store_with(config_with(100, 1, 5, 10, 20, 10));
    let class_id = make_class(&mut store);
    store.add_curator_group(lead()).unwrap();
    store.add_curator_group(lead()).unwrap();
    store.add_maintainer_to_class(lead(), class_id, 0).unwrap();
    assert_eq!(
        store.add_maintainer_to_class(lead(), class_id, 1),
        Err(Error::MaintainersLimitReached)
    );
}

#[test]
fn curators_limit_reached() {
    let mut store = store_with(config_with(100, 5, 1, 10, 20, 10));
    store.add_curator_group(lead()).unwrap();
    store.add_curator_to_group(lead(), 0, 7).unwrap();
    assert_eq!(
        store.add_curator_to_group(lead(), 0, 8),
        Err(Error::CuratorsLimitReached)
    );
}

#[test]
fn entities_per_class_limit_reached() {
    let mut store = test_store();
    let class_id = store.next_class_id;
    store
        .create_class(lead(), b"tiny".to_vec(), b"dd".to_vec(), open_permissions(), 2, 1)
        .unwrap();
    store.create_entity(member(), class_id, Actor::Member(MEMBER_ID)).unwrap();
    store
        .create_entity(Origin::Signed(MEMBER2_ACCOUNT), class_id, Actor::Member(MEMBER2_ID))
        .unwrap();
    assert_eq!(
        store.create_entity(lead(), class_id, Actor::Lead),
        Err(Error::EntitiesPerClassLimitReached)
    );
}

#[test]
fn voucher_limit_reached() {
    let mut store = test_store();
    let class_id = store.next_class_id;
    store
        .create_class(lead(), b"tiny".to_vec(), b"dd".to_vec(), open_permissions(), 10, 1)
        .unwrap();
    store.create_entity(member(), class_id, Actor::Member(MEMBER_ID)).unwrap();
    assert_eq!(
        store.create_entity(member(), class_id, Actor::Member(MEMBER_ID)),
        Err(Error::VoucherLimitReached)
    );
}

#[test]
fn ops_per_batch_limit_reached() {
    let mut store = store_with(config_with(100, 5, 5, 10, 20, 1));
    let class_id = make_class(&mut store);
    let op = OperationType::CreateEntity(CreateEntityOperation { class_id });
    assert_eq!(
        store.transaction(lead(), Actor::Lead, vec![op.clone(), op]),
        Err(Error::OpsPerBatchLimitReached)
    );
}

#[test]
fn class_name_and_description_length_errors() {
    let mut store = test_store();
    assert_eq!(
        store.create_class(lead(), b"k".to_vec(), b"dd".to_vec(), open_permissions(), 10, 5),
        Err(Error::NameTooShort)
    );
    assert_eq!(
        store.create_class(lead(), vec![b'k'; 49], b"dd".to_vec(), open_permissions(), 10, 5),
        Err(Error::NameTooLong)
    );
    assert_eq!(
        store.create_class(lead(), b"kk".to_vec(), b"d".to_vec(), open_permissions(), 10, 5),
        Err(Error::DescriptionTooShort)
    );
    assert_eq!(
        store.create_class(lead(), b"kk".to_vec(), vec![b'd'; 49], open_permissions(), 10, 5),
        Err(Error::DescriptionTooLong)
    );
}

#[test]
fn text_too_long_in_declaration_and_value() {
    let mut store = test_store();
    let class_id = make_class(&mut store);
    // a declared text bound above the configured ceiling is refused
    let mut oversized = text_prop("big", false, false);
    oversized.prop_type = PropertyType::Single(Type::Text(100));
    assert_eq!(
        store.add_class_schema(lead(), class_id, vec![], vec![oversized]),
        Err(Error::TextTooLong)
    );
    // a value above the declared bound is refused
    store
        .add_class_schema(lead(), class_id, vec![], vec![text_prop("title", true, false)])
        .unwrap();
    let e = store.next_entity_id;
    store.create_entity(lead(), class_id, Actor::Lead).unwrap();
    assert_eq!(
        store.add_schema_support_to_entity(
            lead(),
            Actor::Lead,
            e,
            0,
            one_value(0, text_value("far far far too long text")),
        ),
        Err(Error::TextTooLong)
    );
}

#[test]
fn vec_too_long_in_declaration_and_value() {
    let mut store = test_store();
    let class_id = make_class(&mut store);
    let oversized = Property {
        prop_type: PropertyType::Vector(VecPropertyType { vec_type: Type::Bool, max_length: 100 }),
        required: false,
        unique: false,
        name: b"flags".to_vec(),
        description: b"d".to_vec(),
        locked_from_maintainer: false,
        locked_from_controller: false,
    };
    assert_eq!(
        store.add_class_schema(lead(), class_id, vec![], vec![oversized]),
        Err(Error::VecTooLong)
    );
    let bounded = Property {
        prop_type: PropertyType::Vector(VecPropertyType { vec_type: Type::Bool, max_length: 2 }),
        required: false,
        unique: false,
        name: b"flags".to_vec(),
        description: b"d".to_vec(),
        locked_from_maintainer: false,
        locked_from_controller: false,
    };
    store.add_class_schema(lead(), class_id, vec![], vec![bounded]).unwrap();
    let e = store.next_entity_id;
    store.create_entity(lead(), class_id, Actor::Lead).unwrap();
    let long_vec = PropertyValue::Vector(VecPropertyValue::new(
        VecValue::Bool(vec![true, false, true]),
        0,
    ));
    assert_eq!(
        store.add_schema_support_to_entity(lead(), Actor::Lead, e, 0, one_value(0, long_vec)),
        Err(Error::VecTooLong)
    );
}

#[test]
fn property_name_not_unique() {
    let mut store = test_store();
    let class_id = make_class(&mut store);
    assert_eq!(
        store.add_class_schema(
            lead(),
            class_id,
            vec![],
            vec![text_prop("twin", false, false), text_prop("twin", false, false)],
        ),
        Err(Error::PropertyNameNotUnique)
    );
}

#[test]
fn schema_refers_unknown_prop() {
    let mut store = test_store();
    let class_id = make_class(&mut store);
    assert_eq!(
        store.add_class_schema(lead(), class_id, vec![5], vec![]),
        Err(Error::SchemaRefersUnknownProp)
    );
}

#[test]
fn schema_refers_unknown_class() {
    let mut store = test_store();
    let class_id = make_class(&mut store);
    let dangling = Property {
        prop_type: PropertyType::Single(Type::Reference(77, false)),
        required: false,
        unique: false,
        name: b"rel".to_vec(),
        description: b"d".to_vec(),
        locked_from_maintainer: false,
        locked_from_controller: false,
    };
    assert_eq!(
        store.add_class_schema(lead(), class_id, vec![], vec![dangling]),
        Err(Error::SchemaRefersUnknownClass)
    );
}

#[test]
fn empty_schema() {
    let mut store = test_store();
    let class_id = make_class(&mut store);
    assert_eq!(
        store.add_class_schema(lead(), class_id, vec![], vec![]),
        Err(Error::EmptySchema)
    );
}

#[test]
fn schema_already_added_to_entity() {
    let mut store = test_store();
    let (_, e) = entity_with_text(&mut store);
    assert_eq!(
        store.add_schema_support_to_entity(lead(), Actor::Lead, e, 0, one_value(0, text_value("x"))),
        Err(Error::SchemaAlreadyAddedToEntity)
    );
}

#[test]
fn missing_required_prop() {
    let mut store = test_store();
    let class_id = make_class(&mut store);
    store
        .add_class_schema(lead(), class_id, vec![], vec![text_prop("title", true, false)])
        .unwrap();
    let e = store.next_entity_id;
    store.create_entity(lead(), class_id, Actor::Lead).unwrap();
    assert_eq!(
        store.add_schema_support_to_entity(lead(), Actor::Lead, e, 0, KvMap::new()),
        Err(Error::MissingRequiredProp)
    );
}

#[test]
fn property_value_not_unique() {
    let mut store = test_store();
    let class_id = make_class(&mut store);
    store
        .add_class_schema(
            lead(),
            class_id,
            vec![],
            vec![text_prop("first", true, true), text_prop("second", true, true)],
        )
        .unwrap();
    let e = store.next_entity_id;
    store.create_entity(lead(), class_id, Actor::Lead).unwrap();
    let mut values: KvMap<PropertyValue> = KvMap::new();
    values.insert(0, text_value("same"));
    values.insert(1, text_value("same"));
    assert_eq!(
        store.add_schema_support_to_entity(lead(), Actor::Lead, e, 0, values),
        Err(Error::PropertyValueNotUnique)
    );
}

#[test]
fn value_type_mismatch() {
    let mut store = test_store();
    let class_id = make_class(&mut store);
    store
        .add_class_schema(lead(), class_id, vec![], vec![text_prop("title", true, false)])
        .unwrap();
    let e = store.next_entity_id;
    store.create_entity(lead(), class_id, Actor::Lead).unwrap();
    let wrong = PropertyValue::Single(SinglePropertyValue::new(Value::Uint32(9)));
    assert_eq!(
        store.add_schema_support_to_entity(lead(), Actor::Lead, e, 0, one_value(0, wrong)),
        Err(Error::ValueTypeMismatch)
    );
}

#[test]
fn index_out_of_bounds_on_remove_at() {
    let mut store = test_store();
    let class_id = make_class(&mut store);
    let flags = Property {
        prop_type: PropertyType::Vector(VecPropertyType { vec_type: Type::Bool, max_length: 5 }),
        required: false,
        unique: false,
        name: b"flags".to_vec(),
        description: b"d".to_vec(),
        locked_from_maintainer: false,
        locked_from_controller: false,
    };
    store.add_class_schema(lead(), class_id, vec![], vec![flags]).unwrap();
    let e = store.next_entity_id;
    store.create_entity(lead(), class_id, Actor::Lead).unwrap();
    let value = PropertyValue::Vector(VecPropertyValue::new(VecValue::Bool(vec![true]), 0));
    store
        .add_schema_support_to_entity(lead(), Actor::Lead, e, 0, one_value(0, value))
        .unwrap();
    assert_eq!(
        store.remove_at_entity_property_vector(lead(), Actor::Lead, e, 0, 1, 0),
        Err(Error::IndexOutOfBounds)
    );
}

#[test]
fn referenced_entity_not_referenceable() {
    let mut store = test_store();
    let class_b = make_class(&mut store);
    let class_a = make_class(&mut store);
    let rel = Property {
        prop_type: PropertyType::Single(Type::Reference(class_b, false)),
        required: false,
        unique: false,
        name: b"rel".to_vec(),
        description: b"d".to_vec(),
        locked_from_maintainer: false,
        locked_from_controller: false,
    };
    store.add_class_schema(lead(), class_a, vec![], vec![rel]).unwrap();
    let b = store.next_entity_id;
    store.create_entity(lead(), class_b, Actor::Lead).unwrap();
    store.update_entity_permissions(lead(), b, None, Some(false)).unwrap();
    let a = store.next_entity_id;
    store.create_entity(lead(), class_a, Actor::Lead).unwrap();
    let value = PropertyValue::Single(SinglePropertyValue::new(Value::Reference(b)));
    assert_eq!(
        store.add_schema_support_to_entity(lead(), Actor::Lead, a, 0, one_value(0, value)),
        Err(Error::ReferencedEntityNotReferenceable)
    );
}

#[test]
fn same_owner_constraint_violated() {
    let mut store = test_store();
    let class_id = make_class(&mut store);
    let rel = Property {
        prop_type: PropertyType::Single(Type::Reference(class_id, true)),
        required: false,
        unique: false,
        name: b"rel".to_vec(),
        description: b"d".to_vec(),
        locked_from_maintainer: false,
        locked_from_controller: false,
    };
    store.add_class_schema(lead(), class_id, vec![], vec![rel]).unwrap();
    let a = store.next_entity_id;
    store.create_entity(member(), class_id, Actor::Member(MEMBER_ID)).unwrap();
    let b = store.next_entity_id;
    store
        .create_entity(Origin::Signed(MEMBER2_ACCOUNT), class_id, Actor::Member(MEMBER2_ID))
        .unwrap();
    let value = PropertyValue::Single(SinglePropertyValue::new(Value::Reference(b)));
    assert_eq!(
        store.add_schema_support_to_entity(
            member(),
            Actor::Member(MEMBER_ID),
            a,
            0,
            one_value(0, value),
        ),
        Err(Error::SameOwnerConstraintViolated)
    );
}

#[test]
fn creation_limit_relations_on_create_class() {
    let mut store = test_store();
    assert_eq!(
        store.create_class(lead(), b"kk".to_vec(), b"dd".to_vec(), open_permissions(), 10, 10),
        Err(Error::PerControllerLimitExceedsOverallLimit)
    );
    assert_eq!(
        store.create_class(lead(), b"kk".to_vec(), b"dd".to_vec(), open_permissions(), 1000, 5),
        Err(Error::EntitiesPerClassConstraintViolated)
    );
    assert_eq!(
        store.create_class(lead(), b"kk".to_vec(), b"dd".to_vec(), open_permissions(), 600, 500),
        Err(Error::PerActorConstraintViolated)
    );
}

#[test]
fn voucher_update_bounds() {
    let mut store = test_store();
    let class_id = make_class(&mut store);
    let controller = EntityController::Member(MEMBER_ID);
    store.create_entity(member(), class_id, Actor::Member(MEMBER_ID)).unwrap();
    store.create_entity(member(), class_id, Actor::Member(MEMBER_ID)).unwrap();
    assert_eq!(
        store.update_entity_creation_voucher(lead(), class_id, controller, 1),
        Err(Error::VoucherMaxBelowCreatedCount)
    );
    assert_eq!(
        store.update_entity_creation_voucher(lead(), class_id, controller, 11),
        Err(Error::VoucherMaxExceedsPerControllerLimit)
    );
    store.update_entity_creation_voucher(lead(), class_id, controller, 9).unwrap();
}

#[test]
fn maintainer_add_remove_errors() {
    let mut store = test_store();
    let class_id = make_class(&mut store);
    store.add_curator_group(lead()).unwrap();
    store.add_maintainer_to_class(lead(), class_id, 0).unwrap();
    assert_eq!(
        store.add_maintainer_to_class(lead(), class_id, 0),
        Err(Error::MaintainerAlreadyExists)
    );
    assert_eq!(
        store.remove_maintainer_from_class(lead(), class_id, 3),
        Err(Error::MaintainerDoesNotExist)
    );
}

#[test]
fn class_permissions_with_unknown_maintainer_group() {
    let mut store = test_store();
    let mut maintainers = IdSet::new();
    maintainers.insert(9);
    assert_eq!(
        store.create_class(
            lead(),
            b"kk".to_vec(),
            b"dd".to_vec(),
            ClassPermissions::new(false, false, false, maintainers),
            10,
            5,
        ),
        Err(Error::CuratorGroupNotFound)
    );
}
