//! Store-wide laws: properties that hold of every well-formed store, and
//! round-trip facts relating the mutations' contracts.

use vstd::prelude::*;
use crate::entity::Entity;
use crate::permissions::EntityController;
use crate::permissions::EntityPermissions;
use crate::schema::pv_eq;
use crate::schema::PropertyValue;
use crate::schema::Value;
use crate::store::Store;
use crate::vouchers::VoucherKey;
use crate::ClassId;
use crate::EntityId;

verus! {

impl Store {
    /// In every well-formed store, each entity's same-owner inbound
    /// counter stays below or at its total inbound counter.
    pub proof fn lemma_same_owner_counter_bounded(&self)
        requires
            self.wf(),
        ensures
            forall|id: EntityId|
                #[trigger] self.entity_by_id@.dom().contains(id) ==> self.entity_by_id@[
                    id
                ].inbound_same_owner_references_from_other_entities_count <= self.entity_by_id@[
                    id
                ].reference_count,
    {
    }

    /// In every well-formed store, each voucher's created count stays at
    /// or below its maximum, which stays at or below the per-controller
    /// creation limit of its class — and that class exists.
    pub proof fn lemma_voucher_within_limits(&self)
        requires
            self.wf(),
        ensures
            forall|k: VoucherKey|
                #[trigger] self.entity_creation_vouchers@.dom().contains(k) ==> {
                    let v = self.entity_creation_vouchers@[k];
                    &&& v.entities_created <= v.maximum_entities_count
                    &&& self.class_by_id@.dom().contains(k.class_id)
                    &&& v.maximum_entities_count <= self.class_by_id@[
                        k.class_id
                    ].per_controller_entity_creation_limit
                },
    {
    }

    /// In every well-formed store, each class's entity counter equals the
    /// number of entities instantiating it and stays within the class
    /// maximum.
    pub proof fn lemma_class_counters_track_entities(&self)
        requires
            self.wf(),
        ensures
            forall|cid: ClassId|
                #[trigger] self.class_by_id@.dom().contains(cid) ==> {
                    &&& self.class_by_id@[cid].current_number_of_entities
                        == self.spec_entities_of_class(cid).len()
                    &&& self.class_by_id@[cid].current_number_of_entities <= self.class_by_id@[
                        cid
                    ].maximum_entities_count
                },
    {
    }

    /// In every well-formed store, property names are pairwise distinct
    /// within each class, and every schema is non-empty and indexes only
    /// properties the class declares.
    pub proof fn lemma_class_schema_integrity(&self)
        requires
            self.wf(),
        ensures
            forall|cid: ClassId|
                #[trigger] self.class_by_id@.dom().contains(cid) ==> {
                    let c = self.class_by_id@[cid];
                    &&& c.spec_property_names_unique()
                    &&& c.spec_schemas_valid()
                },
    {
    }

    /// In every well-formed store, every issued id lies below its
    /// namespace's counter: an id at or above the counter is fresh, so no
    /// id is ever reassigned.
    pub proof fn lemma_ids_never_reassigned(&self, id: u64)
        requires
            self.wf(),
        ensures
            id >= self.next_class_id ==> !self.class_by_id@.dom().contains(id),
            id >= self.next_entity_id ==> !self.entity_by_id@.dom().contains(id),
            id >= self.next_curator_group_id ==> !self.curator_group_by_id@.dom().contains(id),
    {
    }

    /// Supplying only values equal to the stored ones makes
    /// `update_entity_property_values` a no-op: by its contract the store
    /// is then left untouched and no event is emitted.
    pub proof fn lemma_update_with_current_values_is_noop(
        &self,
        entity_id: EntityId,
        input: Map<u64, PropertyValue>,
    )
        requires
            forall|k: u64|
                #[trigger] input.dom().contains(k) ==> self.entity_by_id@[
                    entity_id
                ].values@.dom().contains(k) && pv_eq(
                    input[k],
                    self.entity_by_id@[entity_id].values@[k],
                ),
        ensures
            !self.spec_update_changes_something(entity_id, input),
    {
    }

    /// A same-owner-closed set covers everything reachable from its root
    /// over same-owner reference edges: walking any edge path that starts
    /// at the root cannot leave the set.
    pub proof fn lemma_closed_set_covers_reachable(
        &self,
        v: Set<EntityId>,
        root: EntityId,
        path: Seq<EntityId>,
    )
        requires
            self.spec_same_owner_closed(v, root),
            path.len() > 0,
            path[0] == root,
            forall|i: int| 0 <= i < path.len() ==> self.entity_by_id@.dom().contains(
                #[trigger] path[i],
            ),
            forall|i: int|
                0 <= i < path.len() - 1 ==> self.spec_same_owner_targets(#[trigger] path[i]).contains(
                    path[i + 1],
                ),
        ensures
            v.contains(path.last()),
        decreases path.len(),
    {
        if path.len() == 1 {
        } else {
            let prefix = path.drop_last();
            assert(prefix[0] == root);
            assert forall|i: int| 0 <= i < prefix.len() implies self.entity_by_id@.dom().contains(
                #[trigger] prefix[i],
            ) by {
                assert(path[i] == prefix[i]);
            }
            assert forall|i: int| 0 <= i < prefix.len() - 1 implies self.spec_same_owner_targets(
                #[trigger] prefix[i],
            ).contains(prefix[i + 1]) by {
                assert(path[i] == prefix[i]);
                assert(path[i + 1] == prefix[i + 1]);
            }
            self.lemma_closed_set_covers_reachable(v, root, prefix);
            assert(prefix.last() == path[path.len() - 2]);
            assert(self.spec_same_owner_targets(path[path.len() - 2]).contains(path.last()));
        }
    }

    /// After a successful ownership transfer, every entity reachable from
    /// the root over same-owner reference edges of the old store carries
    /// the new controller: the rewritten set is closed, so it covers the
    /// whole reachable subgraph.
    pub proof fn lemma_transfer_rewrites_reachable(
        old_store: &Store,
        new_store: &Store,
        root: EntityId,
        new_controller: EntityController,
        path: Seq<EntityId>,
    )
        requires
            exists|v: Set<EntityId>|
                {
                    &&& #[trigger] old_store.spec_same_owner_closed(v, root)
                    &&& new_store.entity_by_id@.dom() == old_store.entity_by_id@.dom()
                    &&& forall|id: EntityId|
                        #[trigger] old_store.entity_by_id@.dom().contains(id)
                            ==> new_store.entity_by_id@[id] == (if v.contains(id) {
                            Entity {
                                entity_permission: EntityPermissions {
                                    controller: new_controller,
                                    ..old_store.entity_by_id@[id].entity_permission
                                },
                                ..old_store.entity_by_id@[id]
                            }
                        } else {
                            old_store.entity_by_id@[id]
                        })
                },
            path.len() > 0,
            path[0] == root,
            forall|i: int| 0 <= i < path.len() ==> old_store.entity_by_id@.dom().contains(
                #[trigger] path[i],
            ),
            forall|i: int|
                0 <= i < path.len() - 1 ==> old_store.spec_same_owner_targets(
                    #[trigger] path[i],
                ).contains(path[i + 1]),
        ensures
            new_store.entity_by_id@[path.last()].entity_permission.controller == new_controller,
    {
        let v = choose|v: Set<EntityId>|
            {
                &&& #[trigger] old_store.spec_same_owner_closed(v, root)
                &&& new_store.entity_by_id@.dom() == old_store.entity_by_id@.dom()
                &&& forall|id: EntityId|
                    #[trigger] old_store.entity_by_id@.dom().contains(id)
                        ==> new_store.entity_by_id@[id] == (if v.contains(id) {
                        Entity {
                            entity_permission: EntityPermissions {
                                controller: new_controller,
                                ..old_store.entity_by_id@[id].entity_permission
                            },
                            ..old_store.entity_by_id@[id]
                        }
                    } else {
                        old_store.entity_by_id@[id]
                    })
            };
        old_store.lemma_closed_set_covers_reachable(v, root, path);
        assert(old_store.entity_by_id@.dom().contains(path.last()));
    }
}


/// Inserting a value into an entity's vector property and then removing it
/// at the same index — as the two vector operations' contracts describe —
/// hands the vector back unchanged, with the nonce advanced by two.
pub proof fn lemma_vector_insert_then_remove_round_trip(
    s0: Store,
    s1: Store,
    s2: Store,
    entity_id: EntityId,
    prop_id: u64,
    index: int,
    value: Value,
)
    requires
        s0.entity_by_id@.dom().contains(entity_id),
        s0.entity_by_id@[entity_id].values@.dom().contains(prop_id),
        (match s0.entity_by_id@[entity_id].values@[prop_id] {
            PropertyValue::Vector(v0) => 0 <= index <= v0.vec_value.elems().len(),
            PropertyValue::Single(_) => false,
        }),
        (match (
            s0.entity_by_id@[entity_id].values@[prop_id],
            s1.entity_by_id@[entity_id].values@[prop_id],
        ) {
            (PropertyValue::Vector(v0), PropertyValue::Vector(v1)) => v1.vec_value.elems()
                == v0.vec_value.elems().insert(index, value) && v1.nonce == v0.nonce + 1,
            _ => false,
        }),
        (match (
            s1.entity_by_id@[entity_id].values@[prop_id],
            s2.entity_by_id@[entity_id].values@[prop_id],
        ) {
            (PropertyValue::Vector(v1), PropertyValue::Vector(v2)) => v2.vec_value.elems()
                == v1.vec_value.elems().remove(index) && v2.nonce == v1.nonce + 1,
            _ => false,
        }),
    ensures
        (match (
            s0.entity_by_id@[entity_id].values@[prop_id],
            s2.entity_by_id@[entity_id].values@[prop_id],
        ) {
            (PropertyValue::Vector(v0), PropertyValue::Vector(v2)) => v2.vec_value.elems()
                == v0.vec_value.elems() && v2.nonce == v0.nonce + 2,
            _ => false,
        }),
{
    match s0.entity_by_id@[entity_id].values@[prop_id] {
        PropertyValue::Vector(v0) => {
            lemma_insert_then_remove_restores_elems(v0.vec_value.elems(), index, value);
        },
        PropertyValue::Single(_) => {},
    }
}

/// Deactivating and then reactivating a schema — as the schema-status
/// operation's contract describes — restores the class's schema list and
/// touches no entity at either step.
pub proof fn lemma_schema_deactivate_reactivate_round_trip(
    s0: Store,
    s1: Store,
    s2: Store,
    class_id: ClassId,
    schema_id: int,
)
    requires
        s0.class_by_id@.dom().contains(class_id),
        0 <= schema_id < s0.class_by_id@[class_id].schemas@.len(),
        s0.class_by_id@[class_id].schemas@[schema_id].is_active,
        s1.entity_by_id == s0.entity_by_id,
        s2.entity_by_id == s1.entity_by_id,
        s1.class_by_id@[class_id].schemas@ == s0.class_by_id@[class_id].schemas@.update(
            schema_id,
            (crate::schema::Schema {
                is_active: false,
                ..s0.class_by_id@[class_id].schemas@[schema_id]
            }),
        ),
        s2.class_by_id@[class_id].schemas@ == s1.class_by_id@[class_id].schemas@.update(
            schema_id,
            (crate::schema::Schema {
                is_active: true,
                ..s1.class_by_id@[class_id].schemas@[schema_id]
            }),
        ),
    ensures
        s2.entity_by_id == s0.entity_by_id,
        s2.class_by_id@[class_id].schemas@ == s0.class_by_id@[class_id].schemas@,
{
    assert(s2.class_by_id@[class_id].schemas@ =~= s0.class_by_id@[class_id].schemas@);
}

/// Inserting a value into a vector and removing it at the same index
/// restores the vector's elements; by the vector operations' contracts
/// the nonce has then advanced by two.
pub proof fn lemma_insert_then_remove_restores_elems(elems: Seq<Value>, i: int, x: Value)
    requires
        0 <= i <= elems.len(),
    ensures
        elems.insert(i, x).remove(i) == elems,
{
    assert(elems.insert(i, x).remove(i) =~= elems);
}


/// Inserting a reference and removing it again restores every entity's
/// counters: the two vector operations' counter clauses — one up, one
/// down, on the same target with the same flag — cancel exactly.
pub proof fn lemma_vector_round_trip_restores_counters(
    s0: Store,
    s1: Store,
    s2: Store,
    target: Option<EntityId>,
    same: bool,
)
    requires
        s1.entity_by_id@.dom() == s0.entity_by_id@.dom(),
        s2.entity_by_id@.dom() == s1.entity_by_id@.dom(),
        forall|id: EntityId|
            #[trigger] s0.entity_by_id@.dom().contains(id) ==> s1.entity_by_id@[
                id
            ].reference_count == s0.entity_by_id@[id].reference_count + (if target == Some(id) {
                1int
            } else {
                0
            }) && s1.entity_by_id@[id].inbound_same_owner_references_from_other_entities_count
                == s0.entity_by_id@[id].inbound_same_owner_references_from_other_entities_count + (
            if same && target == Some(id) {
                1int
            } else {
                0
            }),
        forall|id: EntityId|
            #[trigger] s1.entity_by_id@.dom().contains(id) ==> s2.entity_by_id@[
                id
            ].reference_count == s1.entity_by_id@[id].reference_count - (if target == Some(id) {
                1int
            } else {
                0
            }) && s2.entity_by_id@[id].inbound_same_owner_references_from_other_entities_count
                == s1.entity_by_id@[id].inbound_same_owner_references_from_other_entities_count - (
            if same && target == Some(id) {
                1int
            } else {
                0
            }),
    ensures
        forall|id: EntityId|
            #[trigger] s0.entity_by_id@.dom().contains(id) ==> s2.entity_by_id@[
                id
            ].reference_count == s0.entity_by_id@[id].reference_count && s2.entity_by_id@[
                id
            ].inbound_same_owner_references_from_other_entities_count == s0.entity_by_id@[
                id
            ].inbound_same_owner_references_from_other_entities_count,
{
}

/// Deactivating and then reactivating a schema restores the class's
/// schema list; by the status operation's contract no entity was touched
/// by either step.
pub proof fn lemma_schema_status_round_trip(
    schemas: Seq<crate::schema::Schema>,
    schema_id: int,
    active0: bool,
)
    requires
        0 <= schema_id < schemas.len(),
        schemas[schema_id].is_active == active0,
    ensures
        schemas.update(
            schema_id,
            (crate::schema::Schema { is_active: !active0, ..schemas[schema_id] }),
        ).update(
            schema_id,
            (crate::schema::Schema {
                is_active: active0,
                ..schemas.update(
                    schema_id,
                    (crate::schema::Schema { is_active: !active0, ..schemas[schema_id] }),
                )[schema_id]
            }),
        ) == schemas,
{
    let once = schemas.update(
        schema_id,
        (crate::schema::Schema { is_active: !active0, ..schemas[schema_id] }),
    );
    let twice = once.update(
        schema_id,
        (crate::schema::Schema { is_active: active0, ..once[schema_id] }),
    );
    assert(twice =~= schemas);
}

} // verus!
