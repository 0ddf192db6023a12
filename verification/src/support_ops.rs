//! Adding schema support to an entity: every property of the schema not
//! yet present is staged — from the supplied values or as the default —
//! validated, and committed together with the schema id.

use vstd::prelude::*;
use crate::collections::KvMap;
use vstd::multiset::Multiset;
use crate::entity::EntitiesRc;
use crate::errors::Error;
use crate::events::Event;
use crate::permissions::Actor;
use crate::permissions::Origin;
use crate::schema::pv_eq;
use crate::schema::PropertyValue;
use crate::schema::SinglePropertyValue;
use crate::schema::Value;
use crate::store::Store;
use crate::value_ops::rc_only_change;
use crate::value_ops::spec_rc_delta;
use crate::EntityId;
use crate::PropertyId;
use crate::ReferenceCounter;
use crate::SchemaId;

verus! {

/// The value staged for a schema property: the supplied one, or the
/// default when omitted.
pub open spec fn spec_staged_value(input: Map<u64, PropertyValue>, pid: u64) -> PropertyValue {
    if input.dom().contains(pid) {
        input[pid]
    } else {
        PropertyValue::Single(SinglePropertyValue { value: Value::Bool(false) })
    }
}

impl Store {
    /// Position `j` of `props` is the first to stage its property: the
    /// entity does not hold the property yet and no earlier position
    /// names it.
    pub open spec fn spec_first_occurrence(
        &self,
        entity_id: EntityId,
        props: Seq<PropertyId>,
        j: int,
    ) -> bool {
        &&& !self.entity_by_id@[entity_id].values@.dom().contains(props[j])
        &&& forall|j2: int| 0 <= j2 < j ==> props[j2] != props[j]
    }

    /// The staged value for position `j` validates: a supplied value has
    /// the right type, valid references, and respects uniqueness against
    /// the entity's values and the values staged before it; an omitted
    /// property must not be required.
    pub open spec fn spec_support_entry_ok(
        &self,
        entity_id: EntityId,
        props: Seq<PropertyId>,
        j: int,
        input: Map<u64, PropertyValue>,
    ) -> bool {
        let e = self.entity_by_id@[entity_id];
        let class = self.class_by_id@[e.class_id];
        let pid = props[j];
        let p = class.properties@[pid as int];
        if input.dom().contains(pid) {
            &&& self.spec_value_to_update_valid(
                p.prop_type,
                input[pid],
                e.entity_permission.controller,
            ) is Ok
            &&& ((p.unique && (!input[pid].spec_is_default() || p.required)) ==> {
                &&& (forall|k: u64|
                    #[trigger] e.values@.dom().contains(k) ==> !pv_eq(e.values@[k], input[pid]))
                &&& (forall|j2: int|
                    0 <= j2 < j && self.spec_first_occurrence(entity_id, props, j2) ==> !pv_eq(
                        spec_staged_value(input, props[j2]),
                        input[pid],
                    ))
            })
        } else {
            !p.required
        }
    }

    /// The pre-staging outcome of `add_schema_support_to_entity`.
    pub open spec fn spec_add_schema_support_prefix(
        &self,
        origin: Origin,
        actor: Actor,
        entity_id: EntityId,
        schema_id: SchemaId,
    ) -> Result<(), Error> {
        match self.spec_class_entity_access(origin, entity_id, actor) {
            Err(e) => Err(e),
            Ok(_) => {
                let entity = self.entity_by_id@[entity_id];
                let class = self.class_by_id@[entity.class_id];
                if class.spec_schema_is_active(schema_id) is Err {
                    class.spec_schema_is_active(schema_id)
                } else if entity.supported_schemas@.contains(schema_id) {
                    Err(Error::SchemaAlreadyAddedToEntity)
                } else {
                    Ok(())
                }
            },
        }
    }

    /// Success of `add_schema_support_to_entity`: the schema is active and
    /// new to the entity, and every first-staged property validates.
    pub open spec fn spec_add_schema_support_ok(
        &self,
        origin: Origin,
        actor: Actor,
        entity_id: EntityId,
        schema_id: SchemaId,
        input: Map<u64, PropertyValue>,
    ) -> bool {
        let entity = self.entity_by_id@[entity_id];
        let class = self.class_by_id@[entity.class_id];
        let props = class.schemas@[schema_id as int].spec_properties();
        &&& self.spec_add_schema_support_prefix(origin, actor, entity_id, schema_id) is Ok
        &&& forall|j: int|
            0 <= j < props.len() && self.spec_first_occurrence(entity_id, props, j)
                ==> self.spec_support_entry_ok(entity_id, props, j, input)
    }


    /// The first error among the schema's first-staged properties, in
    /// schema order: a supplied value must be valid and respect
    /// uniqueness; an omitted property must not be required.
    pub open spec fn spec_support_first_error(
        &self,
        entity_id: EntityId,
        props: Seq<PropertyId>,
        input: Map<u64, PropertyValue>,
        i: int,
    ) -> Result<(), Error>
        decreases props.len() - i,
    {
        let e = self.entity_by_id@[entity_id];
        let class = self.class_by_id@[e.class_id];
        if i < 0 || i >= props.len() {
            Ok(())
        } else if !self.spec_first_occurrence(entity_id, props, i) {
            self.spec_support_first_error(entity_id, props, input, i + 1)
        } else {
            let pid = props[i];
            let p = class.properties@[pid as int];
            if input.dom().contains(pid) {
                let v = input[pid];
                if self.spec_value_to_update_valid(
                    p.prop_type,
                    v,
                    e.entity_permission.controller,
                ) is Err {
                    self.spec_value_to_update_valid(p.prop_type, v, e.entity_permission.controller)
                } else if p.unique && (!v.spec_is_default() || p.required) && !((forall|k: u64|
                    #[trigger] e.values@.dom().contains(k) ==> !pv_eq(e.values@[k], v)) && (
                forall|j2: int|
                    0 <= j2 < i && self.spec_first_occurrence(entity_id, props, j2) ==> !pv_eq(
                        spec_staged_value(input, props[j2]),
                        v,
                    ))) {
                    Err(Error::PropertyValueNotUnique)
                } else {
                    self.spec_support_first_error(entity_id, props, input, i + 1)
                }
            } else {
                if p.required {
                    Err(Error::MissingRequiredProp)
                } else {
                    self.spec_support_first_error(entity_id, props, input, i + 1)
                }
            }
        }
    }

    /// The exact pre-mutation outcome of `add_schema_support_to_entity`.
    pub open spec fn spec_add_schema_support(
        &self,
        origin: Origin,
        actor: Actor,
        entity_id: EntityId,
        schema_id: SchemaId,
        input: Map<u64, PropertyValue>,
    ) -> Result<(), Error> {
        match self.spec_add_schema_support_prefix(origin, actor, entity_id, schema_id) {
            Err(e) => Err(e),
            Ok(()) => {
                let entity = self.entity_by_id@[entity_id];
                let class = self.class_by_id@[entity.class_id];
                let props = class.schemas@[schema_id as int].spec_properties();
                self.spec_support_first_error(entity_id, props, input, 0)
            },
        }
    }


    /// The entity references contributed by the staged values of the
    /// schema's first `i` positions, restricted to properties whose
    /// same-controller flag equals `want_same`.  Omitted properties stage
    /// the default, which references nothing.
    pub open spec fn spec_support_refs(
        &self,
        entity_id: EntityId,
        props: Seq<PropertyId>,
        input: Map<u64, PropertyValue>,
        i: int,
        want_same: bool,
    ) -> Multiset<EntityId>
        decreases i,
    {
        let e = self.entity_by_id@[entity_id];
        let class = self.class_by_id@[e.class_id];
        if i <= 0 || i > props.len() {
            Multiset::empty()
        } else {
            let rest = self.spec_support_refs(entity_id, props, input, i - 1, want_same);
            let pid = props[i - 1];
            if self.spec_first_occurrence(entity_id, props, i - 1) && input.dom().contains(pid)
                && class.properties@[pid as int].prop_type.spec_same_controller() == want_same {
                rest.add(input[pid].spec_refs().to_multiset())
            } else {
                rest
            }
        }
    }

    /// Staging more positions never lowers a reference's count.
    proof fn lemma_support_refs_monotone(
        &self,
        entity_id: EntityId,
        props: Seq<PropertyId>,
        input: Map<u64, PropertyValue>,
        i: int,
        i2: int,
        want_same: bool,
        x: EntityId,
    )
        requires
            0 <= i <= i2 <= props.len(),
        ensures
            self.spec_support_refs(entity_id, props, input, i, want_same).count(x)
                <= self.spec_support_refs(entity_id, props, input, i2, want_same).count(x),
        decreases i2 - i,
    {
        if i < i2 {
            self.lemma_support_refs_monotone(entity_id, props, input, i, i2 - 1, want_same, x);
        }
    }

    /// Merges the schema's missing properties into the entity — supplied
    /// values validated, omitted optional ones as defaults — marks the
    /// schema as supported, and takes up the staged references.
    pub fn add_schema_support_to_entity(
        &mut self,
        origin: Origin,
        actor: Actor,
        entity_id: EntityId,
        schema_id: SchemaId,
        property_values: KvMap<PropertyValue>,
    ) -> (r: Result<(), Error>)
        requires
            old(self).wf(),
            property_values.wf(),
        ensures
            final(self).wf(),
            r is Err ==> final(self).events == old(self).events,
            final(self).config == old(self).config,
            final(self).authority == old(self).authority,
            old(self).spec_add_schema_support_prefix(origin, actor, entity_id, schema_id) is Err
                ==> r == old(self).spec_add_schema_support_prefix(
                origin,
                actor,
                entity_id,
                schema_id,
            ) && *final(self) == *old(self),
            r is Ok ==> old(self).spec_add_schema_support_ok(
                origin,
                actor,
                entity_id,
                schema_id,
                property_values@,
            ),
            old(self).spec_add_schema_support_ok(
                origin,
                actor,
                entity_id,
                schema_id,
                property_values@,
            ) ==> (r is Ok || r == Result::<(), Error>::Err(Error::InternalInvariantBroken)),
            ({
                let props = old(self).class_by_id@[
                    old(self).entity_by_id@[entity_id].class_id
                ].schemas@[schema_id as int].spec_properties();
                let ms = old(self).spec_support_refs(
                    entity_id,
                    props,
                    property_values@,
                    props.len() as int,
                    true,
                );
                let mo = old(self).spec_support_refs(
                    entity_id,
                    props,
                    property_values@,
                    props.len() as int,
                    false,
                );
                &&& old(self).spec_add_schema_support(
                    origin,
                    actor,
                    entity_id,
                    schema_id,
                    property_values@,
                ) is Ok
                &&& forall|x: EntityId| #[trigger] ms.count(x) <= ReferenceCounter::MAX
                &&& forall|x: EntityId| #[trigger] mo.count(x) <= ReferenceCounter::MAX
                &&& forall|id: EntityId|
                    #[trigger] old(self).entity_by_id@.dom().contains(id) ==> old(
                        self,
                    ).entity_by_id@[id].reference_count + ms.count(id) + mo.count(id)
                        <= ReferenceCounter::MAX
            }) ==> r is Ok,
            r is Ok ==> {
                let props = old(self).class_by_id@[
                    old(self).entity_by_id@[entity_id].class_id
                ].schemas@[schema_id as int].spec_properties();
                let ms = old(self).spec_support_refs(
                    entity_id,
                    props,
                    property_values@,
                    props.len() as int,
                    true,
                );
                let mo = old(self).spec_support_refs(
                    entity_id,
                    props,
                    property_values@,
                    props.len() as int,
                    false,
                );
                forall|id: EntityId|
                    #[trigger] old(self).entity_by_id@.dom().contains(id) ==> {
                        &&& final(self).entity_by_id@[id].reference_count == old(
                            self,
                        ).entity_by_id@[id].reference_count + ms.count(id) + mo.count(id)
                        &&& final(self).entity_by_id@[
                            id
                        ].inbound_same_owner_references_from_other_entities_count == old(
                            self,
                        ).entity_by_id@[
                            id
                        ].inbound_same_owner_references_from_other_entities_count + ms.count(id)
                    }
            },
            (r is Err && r != Result::<(), Error>::Err(Error::InternalInvariantBroken)) ==> *final(self) == *old(self) && r == old(self).spec_add_schema_support(
                origin,
                actor,
                entity_id,
                schema_id,
                property_values@,
            ),
            r is Ok ==> {
                let e0 = old(self).entity_by_id@[entity_id];
                let c0 = old(self).class_by_id@[e0.class_id];
                let props = c0.schemas@[schema_id as int].spec_properties();
                &&& final(self).entity_by_id@.dom() == old(self).entity_by_id@.dom()
                &&& final(self).entity_by_id@[entity_id].values@.dom() == e0.values@.dom().union(
                    props.to_set(),
                )
                &&& forall|pid: PropertyId|
                    props.contains(pid) && !e0.values@.dom().contains(pid) ==> final(self).entity_by_id@[entity_id].values@[pid] == spec_staged_value(
                        property_values@,
                        pid,
                    )
                &&& forall|k: u64|
                    #[trigger] e0.values@.dom().contains(k) ==> final(self).entity_by_id@[entity_id].values@[k] == e0.values@[k]
                &&& final(self).entity_by_id@[entity_id].supported_schemas@
                    == e0.supported_schemas@.insert(schema_id)
                &&& final(self).entity_by_id@[entity_id].entity_permission == e0.entity_permission
                &&& final(self).entity_by_id@[entity_id].class_id == e0.class_id
                &&& forall|id: EntityId|
                    id != entity_id && old(self).entity_by_id@.dom().contains(id)
                        ==> rc_only_change(
                        old(self).entity_by_id@[id],
                        #[trigger] final(self).entity_by_id@[id],
                    )
                &&& final(self).events@ == old(self).events@.push(
                    Event::EntitySchemaSupportAdded(actor, entity_id, schema_id),
                )
                &&& final(self).class_by_id == old(self).class_by_id
                &&& final(self).curator_group_by_id == old(self).curator_group_by_id
                &&& final(self).entity_creation_vouchers == old(self).entity_creation_vouchers
                &&& final(self).next_curator_group_id == old(self).next_curator_group_id
                &&& final(self).next_class_id == old(self).next_class_id
                &&& final(self).next_entity_id == old(self).next_entity_id
                &&& final(self).config == old(self).config
                &&& final(self).authority == old(self).authority
            },
    {
        if let Err(e) = self.class_entity_and_access_level(origin, entity_id, &actor) {
            return Err(e);
        }
        let mut increments = EntitiesRc::default();
        {
            let (entity, class) = match self.get_entity_and_class(entity_id) {
                Ok(pair) => pair,
                Err(e) => {
                    return Err(e);
                },
            };
            if let Err(e) = class.ensure_schema_is_active(schema_id) {
                return Err(e);
            }
            if let Err(e) = entity.ensure_schema_id_is_not_added(schema_id) {
                return Err(e);
            }
            let controller = entity.get_permissions().get_controller();
            proof {
                vstd::std_specs::vec::axiom_spec_len(&class.schemas);
            }
            let props = class.schemas[schema_id as usize].get_properties();
            let ghost propsg = props@;
            let n = props.len();
            let mut staged_list: Vec<PropertyId> = Vec::new();
            let mut j: usize = 0;
            while j < n
                invariant
                    old(self).wf(),
                    *self == *old(self),
                    property_values.wf(),
                    old(self).entity_by_id@.dom().contains(entity_id),
                    *entity == old(self).entity_by_id@[entity_id],
                    *class == old(self).class_by_id@[entity.class_id],
                    entity.wf(),
                    class.wf(),
                    controller == entity.entity_permission.controller,
                    (schema_id as int) < class.schemas@.len(),
                    propsg == class.schemas@[schema_id as int].spec_properties(),
                    props@ == propsg,
                    old(self).spec_add_schema_support_prefix(origin, actor, entity_id, schema_id)
                        is Ok,
                    n == propsg.len(),
                    j <= n,
                    increments.wf(),
                    forall|pid: PropertyId| staged_list@.contains(pid) == (
                    !entity.values@.dom().contains(pid) && exists|j2: int|
                        0 <= j2 < j && propsg[j2] == pid),
                    forall|j2: int|
                        0 <= j2 < j && old(self).spec_first_occurrence(entity_id, propsg, j2)
                            ==> old(self).spec_support_entry_ok(
                            entity_id,
                            propsg,
                            j2,
                            property_values@,
                        ),
                    old(self).spec_support_first_error(entity_id, propsg, property_values@, 0)
                        == old(self).spec_support_first_error(
                        entity_id,
                        propsg,
                        property_values@,
                        j as int,
                    ),
                    forall|x: EntityId|
                        spec_rc_delta(#[trigger] increments.inbound_same_owner_entity_rcs@, x)
                            == old(self).spec_support_refs(
                            entity_id,
                            propsg,
                            property_values@,
                            j as int,
                            true,
                        ).count(x),
                    forall|x: EntityId|
                        spec_rc_delta(#[trigger] increments.inbound_entity_rcs@, x) == old(
                            self,
                        ).spec_support_refs(
                            entity_id,
                            propsg,
                            property_values@,
                            j as int,
                            false,
                        ).count(x),
                decreases n - j,
            {
                let pid = props[j];
                proof {
                    assert(propsg[j as int] < class.properties@.len());
                    vstd::std_specs::vec::axiom_spec_len(&class.properties);
                }
                if entity.values.contains_key(pid) || vec_contains(&staged_list, pid) {
                    proof {
                        assert forall|pid2: PropertyId| staged_list@.contains(pid2) == (
                        !entity.values@.dom().contains(pid2) && exists|j2: int|
                            0 <= j2 < j + 1 && propsg[j2] == pid2) by {
                            if pid2 == pid {
                                if !entity.values@.dom().contains(pid) {
                                    assert(propsg[j as int] == pid);
                                }
                            } else {
                                if exists|j2: int| 0 <= j2 < j + 1 && propsg[j2] == pid2 {
                                    let j2 = choose|j2: int|
                                        0 <= j2 < j + 1 && propsg[j2] == pid2;
                                    assert(j2 < j);
                                }
                            }
                        }
                        if !entity.values@.dom().contains(pid) {
                            assert(staged_list@.contains(pid));
                            let jf = choose|j2: int| 0 <= j2 < j && propsg[j2] == pid;
                            assert(!old(self).spec_first_occurrence(entity_id, propsg, j as int));
                        }
                    }
                    proof {
                        assert forall|x: EntityId, want: bool|
                            #[trigger] old(self).spec_support_refs(
                                entity_id,
                                propsg,
                                property_values@,
                                j + 1 as int,
                                want,
                            ).count(x) == old(self).spec_support_refs(
                                entity_id,
                                propsg,
                                property_values@,
                                j as int,
                                want,
                            ).count(x) by {
                            assert(!old(self).spec_first_occurrence(entity_id, propsg, j as int));
                        }
                    }
                    j += 1;
                    continue ;
                }
                proof {
                    assert(!exists|j2: int| 0 <= j2 < j && propsg[j2] == pid);
                    assert(old(self).spec_first_occurrence(entity_id, propsg, j as int));
                }
                let p = &class.properties[pid as usize];
                match property_values.get(pid) {
                    Some(v) => {
                        if let Err(e) = self.ensure_property_value_to_update_is_valid(
                            p.prop_type,
                            v,
                            &controller,
                        ) {
                            proof {
                                assert(!old(self).spec_support_entry_ok(
                                    entity_id,
                                    propsg,
                                    j as int,
                                    property_values@,
                                ));
                            }
                            return Err(e);
                        }
                        if p.unique && (!v.is_default() || p.required) {
                            if !Store::value_unique_on_entity(&entity.values, pid, v) {
                                proof {
                                    assert(!old(self).spec_support_entry_ok(
                                        entity_id,
                                        propsg,
                                        j as int,
                                        property_values@,
                                    ));
                                }
                                return Err(Error::PropertyValueNotUnique);
                            }
                            let m = staged_list.len();
                            let mut mi: usize = 0;
                            while mi < m
                                invariant
                                    old(self).wf(),
                                    *self == *old(self),
                                    property_values.wf(),
                                    old(self).entity_by_id@.dom().contains(entity_id),
                                    *entity == old(self).entity_by_id@[entity_id],
                                    *class == old(self).class_by_id@[entity.class_id],
                                    old(self).spec_add_schema_support_prefix(
                                        origin,
                                        actor,
                                        entity_id,
                                        schema_id,
                                    ) is Ok,
                                    (schema_id as int) < class.schemas@.len(),
                                    propsg == class.schemas@[schema_id as int].spec_properties(),
                                    (j as int) < propsg.len(),
                                    propsg[j as int] == pid,
                                    old(self).spec_first_occurrence(entity_id, propsg, j as int),
                                    (pid as int) < class.properties@.len(),
                                    *p == class.properties@[pid as int],
                                    p.unique,
                                    !property_values@[pid as u64].spec_is_default() || p.required,
                                    forall|pid2: PropertyId| staged_list@.contains(pid2) == (
                                    !entity.values@.dom().contains(pid2) && exists|j2: int|
                                        0 <= j2 < j && propsg[j2] == pid2),
                                    m == staged_list@.len(),
                                    mi <= m,
                                    property_values@.dom().contains(pid as u64),
                                    v == property_values@[pid as u64],
                                    old(self).spec_support_first_error(
                                        entity_id,
                                        propsg,
                                        property_values@,
                                        0,
                                    ) == old(self).spec_support_first_error(
                                        entity_id,
                                        propsg,
                                        property_values@,
                                        j as int,
                                    ),
                                    old(self).spec_value_to_update_valid(
                                        class.properties@[pid as int].prop_type,
                                        property_values@[pid as u64],
                                        entity.entity_permission.controller,
                                    ) is Ok,
                                    Store::spec_value_unique_on_entity(
                                        entity.values@,
                                        pid,
                                        property_values@[pid as u64],
                                    ),
                                    forall|m2: int|
                                        0 <= m2 < mi ==> !pv_eq(
                                            spec_staged_value(
                                                property_values@,
                                                #[trigger] staged_list@[m2],
                                            ),
                                            property_values@[pid as u64],
                                        ),
                                decreases m - mi,
                            {
                                let pid2 = staged_list[mi];
                                let clash = match property_values.get(pid2) {
                                    Some(v2) => v2.equals(v),
                                    None => {
                                        let d = PropertyValue::default();
                                        d.equals(v)
                                    },
                                };
                                if clash {
                                    proof {
                                        assert(staged_list@.contains(pid2));
                                        let jf = choose|j2: int|
                                            0 <= j2 < j && propsg[j2] == pid2;
                                        assert(!old(self).spec_support_entry_ok(
                                            entity_id,
                                            propsg,
                                            j as int,
                                            property_values@,
                                        )) by {
                                            assert(old(self).spec_first_occurrence(
                                                entity_id,
                                                propsg,
                                                jf,
                                            ) || !old(self).spec_first_occurrence(
                                                entity_id,
                                                propsg,
                                                jf,
                                            ));
                                            if old(self).spec_support_entry_ok(
                                                entity_id,
                                                propsg,
                                                j as int,
                                                property_values@,
                                            ) {
                                                let jmin = spec_first_index(propsg, pid2, 0);
                                                lemma_first_index(propsg, pid2, 0);
                                                assert(jmin <= jf);
                                                assert(jmin < j);
                                                assert(old(self).spec_first_occurrence(
                                                    entity_id,
                                                    propsg,
                                                    jmin,
                                                ));
                                                assert(propsg[jmin] == pid2);
                                                assert(!pv_eq(
                                                    spec_staged_value(property_values@, pid2),
                                                    property_values@[pid as u64],
                                                ));
                                            }
                                        }
                                    }
                                    return Err(Error::PropertyValueNotUnique);
                                }
                                mi += 1;
                            }
                            proof {
                                assert forall|j2: int|
                                    0 <= j2 < j && old(self).spec_first_occurrence(
                                        entity_id,
                                        propsg,
                                        j2,
                                    ) implies !pv_eq(
                                    spec_staged_value(property_values@, propsg[j2]),
                                    property_values@[pid as u64],
                                ) by {
                                    assert(staged_list@.contains(propsg[j2]));
                                    let m2 = choose|m2: int|
                                        0 <= m2 < staged_list@.len() && staged_list@[m2]
                                            == propsg[j2];
                                    assert(!pv_eq(
                                        spec_staged_value(property_values@, staged_list@[m2]),
                                        property_values@[pid as u64],
                                    ));
                                }
                            }
                        }
                        let same = p.prop_type.same_controller_status();
                        let ghost pre_same = increments.inbound_same_owner_entity_rcs@;
                        let ghost pre_other = increments.inbound_entity_rcs@;
                        let involved_refs = v.get_involved_entities();
                        if let Some(refs) = involved_refs {
                            let fill = if same {
                                Store::fill_in_entity_rcs_map(
                                    &refs,
                                    &mut increments.inbound_same_owner_entity_rcs,
                                )
                            } else {
                                Store::fill_in_entity_rcs_map(
                                    &refs,
                                    &mut increments.inbound_entity_rcs,
                                )
                            };
                            proof {
                                assert(refs@ == property_values@[pid as u64].spec_refs());
                            }
                            if fill.is_err() {
                                proof {
                                    assert(propsg == old(self).class_by_id@[
                                        old(self).entity_by_id@[entity_id].class_id
                                    ].schemas@[schema_id as int].spec_properties());
                                    let msfull = old(self).spec_support_refs(
                                        entity_id,
                                        propsg,
                                        property_values@,
                                        propsg.len() as int,
                                        true,
                                    );
                                    let mofull = old(self).spec_support_refs(
                                        entity_id,
                                        propsg,
                                        property_values@,
                                        propsg.len() as int,
                                        false,
                                    );
                                    if (forall|x: EntityId|
                                        #[trigger] msfull.count(x) <= ReferenceCounter::MAX)
                                        && (forall|x: EntityId|
                                        #[trigger] mofull.count(x) <= ReferenceCounter::MAX) {
                                        if same {
                                            assert forall|x: EntityId|
                                                #[trigger] spec_rc_delta(pre_same, x)
                                                    + refs@.to_multiset().count(x)
                                                    <= ReferenceCounter::MAX by {
                                                assert(spec_rc_delta(pre_same, x) == old(
                                                    self,
                                                ).spec_support_refs(
                                                    entity_id,
                                                    propsg,
                                                    property_values@,
                                                    j as int,
                                                    true,
                                                ).count(x));
                                                assert(old(self).spec_support_refs(
                                                    entity_id,
                                                    propsg,
                                                    property_values@,
                                                    j + 1 as int,
                                                    true,
                                                ).count(x) == old(self).spec_support_refs(
                                                    entity_id,
                                                    propsg,
                                                    property_values@,
                                                    j as int,
                                                    true,
                                                ).count(x) + property_values@[
                                                    pid as u64
                                                ].spec_refs().to_multiset().count(x));
                                                old(self).lemma_support_refs_monotone(
                                                    entity_id,
                                                    propsg,
                                                    property_values@,
                                                    j + 1 as int,
                                                    propsg.len() as int,
                                                    true,
                                                    x,
                                                );
                                                assert(old(self).spec_support_refs(
                                                    entity_id,
                                                    propsg,
                                                    property_values@,
                                                    j + 1 as int,
                                                    true,
                                                ).count(x) <= msfull.count(x));
                                                assert(msfull.count(x) <= ReferenceCounter::MAX);
                                                assert(refs@.to_multiset().count(x)
                                                    == property_values@[
                                                    pid as u64
                                                ].spec_refs().to_multiset().count(x));
                                            }
                                        } else {
                                            assert forall|x: EntityId|
                                                #[trigger] spec_rc_delta(pre_other, x)
                                                    + refs@.to_multiset().count(x)
                                                    <= ReferenceCounter::MAX by {
                                                assert(spec_rc_delta(pre_other, x) == old(
                                                    self,
                                                ).spec_support_refs(
                                                    entity_id,
                                                    propsg,
                                                    property_values@,
                                                    j as int,
                                                    false,
                                                ).count(x));
                                                assert(old(self).spec_support_refs(
                                                    entity_id,
                                                    propsg,
                                                    property_values@,
                                                    j + 1 as int,
                                                    false,
                                                ).count(x) == old(self).spec_support_refs(
                                                    entity_id,
                                                    propsg,
                                                    property_values@,
                                                    j as int,
                                                    false,
                                                ).count(x) + property_values@[
                                                    pid as u64
                                                ].spec_refs().to_multiset().count(x));
                                                old(self).lemma_support_refs_monotone(
                                                    entity_id,
                                                    propsg,
                                                    property_values@,
                                                    j + 1 as int,
                                                    propsg.len() as int,
                                                    false,
                                                    x,
                                                );
                                            }
                                        }
                                        assert(false);
                                    }
                                }
                                return Err(Error::InternalInvariantBroken);
                            }
                        } else {
                            proof {
                                assert forall|x: EntityId|
                                    #[trigger] property_values@[
                                        pid as u64
                                    ].spec_refs().to_multiset().count(x) == 0 by {
                                    vstd::seq_lib::to_multiset_contains(
                                        property_values@[pid as u64].spec_refs(),
                                        x,
                                    );
                                }
                            }
                        }
                    },
                    None => {
                        if p.required {
                            proof {
                                assert(!old(self).spec_support_entry_ok(
                                    entity_id,
                                    propsg,
                                    j as int,
                                    property_values@,
                                ));
                            }
                            return Err(Error::MissingRequiredProp);
                        }
                    },
                }
                let ghost staged0 = staged_list@;
                staged_list.push(pid);
                proof {
                    assert forall|x: EntityId, want: bool|
                        #[trigger] old(self).spec_support_refs(
                            entity_id,
                            propsg,
                            property_values@,
                            j + 1 as int,
                            want,
                        ).count(x) == old(self).spec_support_refs(
                            entity_id,
                            propsg,
                            property_values@,
                            j as int,
                            want,
                        ).count(x) + (if old(self).spec_first_occurrence(
                            entity_id,
                            propsg,
                            j as int,
                        ) && property_values@.dom().contains(pid as u64) && old(self).class_by_id@[
                            old(self).entity_by_id@[entity_id].class_id
                        ].properties@[pid as int].prop_type.spec_same_controller() == want {
                            property_values@[pid as u64].spec_refs().to_multiset().count(x) as int
                        } else {
                            0
                        }) by {}
                    assert forall|x: EntityId|
                        spec_rc_delta(#[trigger] increments.inbound_same_owner_entity_rcs@, x)
                            == old(self).spec_support_refs(
                            entity_id,
                            propsg,
                            property_values@,
                            j + 1 as int,
                            true,
                        ).count(x) by {}
                    assert forall|x: EntityId|
                        spec_rc_delta(#[trigger] increments.inbound_entity_rcs@, x) == old(
                            self,
                        ).spec_support_refs(
                            entity_id,
                            propsg,
                            property_values@,
                            j + 1 as int,
                            false,
                        ).count(x) by {}
                    assert(staged_list@ =~= staged0.push(pid));
                    assert forall|pid2: PropertyId| staged_list@.contains(pid2) == (
                    !entity.values@.dom().contains(pid2) && exists|j2: int|
                        0 <= j2 < j + 1 && propsg[j2] == pid2) by {
                        if pid2 == pid {
                            assert(staged_list@.last() == pid);
                            assert(staged_list@.contains(pid));
                            assert(propsg[j as int] == pid);
                        } else {
                            assert(staged_list@.contains(pid2) == staged0.contains(pid2)) by {
                                if staged_list@.contains(pid2) {
                                    let m2 = choose|m2: int|
                                        0 <= m2 < staged_list@.len() && staged_list@[m2] == pid2;
                                    assert(m2 < staged_list@.len() - 1);
                                    assert(staged0[m2] == pid2);
                                } else {
                                    if staged0.contains(pid2) {
                                        let m2 = choose|m2: int|
                                            0 <= m2 < staged0.len() && staged0[m2] == pid2;
                                        assert(staged_list@[m2] == pid2);
                                    }
                                }
                            }
                            if exists|j2: int| 0 <= j2 < j + 1 && propsg[j2] == pid2 {
                                let j2 = choose|j2: int| 0 <= j2 < j + 1 && propsg[j2] == pid2;
                                assert(j2 < j);
                            }
                        }
                    }
                }
                j += 1;
            }
            proof {
                assert forall|j2: int|
                    0 <= j2 < propsg.len() && old(self).spec_first_occurrence(
                        entity_id,
                        propsg,
                        j2,
                    ) implies old(self).spec_support_entry_ok(
                    entity_id,
                    propsg,
                    j2,
                    property_values@,
                ) by {}
            }
        }
        let ghost e0 = old(self).entity_by_id@[entity_id];
        let ghost c0 = old(self).class_by_id@[e0.class_id];
        let ghost propsg = c0.schemas@[schema_id as int].spec_properties();
        let ghost input0 = property_values;
        let mut entity = match self.entity_by_id.remove_key(entity_id) {
            Some(entity) => entity,
            None => {
                return Err(Error::EntityNotFound);
            },
        };
        let mut input = property_values;
        let props_len = {
            let class = match self.class_by_id.get(entity.class_id) {
                Some(class) => class,
                None => {
                    proof {
                        assert(false);
                    }
                    return Err(Error::InternalInvariantBroken);
                },
            };
            proof {
                vstd::std_specs::vec::axiom_spec_len(&class.schemas);
            }
            class.schemas[schema_id as usize].get_properties().len()
        };
        let mut j: usize = 0;
        proof {
            assert(e0.values@.dom().union(propsg.subrange(0, 0).to_set()) =~= e0.values@.dom());
        }
        while j < props_len
            invariant
                old(self).wf(),
                input0.wf(),
                input.wf(),
                entity.wf(),
                props_len == propsg.len(),
                j <= props_len,
                e0 == old(self).entity_by_id@[entity_id],
                c0 == old(self).class_by_id@[e0.class_id],
                old(self).entity_by_id@.dom().contains(entity_id),
                (schema_id as int) < c0.schemas@.len(),
                propsg == c0.schemas@[schema_id as int].spec_properties(),
                self.entity_by_id@ == old(self).entity_by_id@.remove(entity_id),
                self.class_by_id == old(self).class_by_id,
                self.curator_group_by_id == old(self).curator_group_by_id,
                self.entity_creation_vouchers == old(self).entity_creation_vouchers,
                self.events == old(self).events,
                self.next_curator_group_id == old(self).next_curator_group_id,
                self.next_class_id == old(self).next_class_id,
                self.next_entity_id == old(self).next_entity_id,
                self.config == old(self).config,
                self.authority == old(self).authority,
                entity.class_id == e0.class_id,
                entity.entity_permission == e0.entity_permission,
                entity.supported_schemas == e0.supported_schemas,
                entity.reference_count == e0.reference_count,
                entity.inbound_same_owner_references_from_other_entities_count
                    == e0.inbound_same_owner_references_from_other_entities_count,
                entity.values@.dom() == e0.values@.dom().union(
                    propsg.subrange(0, j as int).to_set(),
                ),
                forall|k: u64|
                    #[trigger] e0.values@.dom().contains(k) ==> entity.values@[k]
                        == e0.values@[k],
                forall|pid: PropertyId|
                    propsg.subrange(0, j as int).contains(pid) && !e0.values@.dom().contains(pid)
                        ==> entity.values@[pid] == spec_staged_value(input0@, pid),
                forall|k: u64|
                    #[trigger] input@.dom().contains(k) ==> input0@.dom().contains(k) && input@[k]
                        == input0@[k],
                forall|k: u64|
                    #[trigger] input0@.dom().contains(k) && !entity.values@.dom().contains(k)
                        ==> input@.dom().contains(k),
            decreases props_len - j,
        {
            let pid = {
                let class = match self.class_by_id.get(entity.class_id) {
                    Some(class) => class,
                    None => {
                        proof {
                            assert(false);
                        }
                        return Err(Error::InternalInvariantBroken);
                    },
                };
                proof {
                    vstd::std_specs::vec::axiom_spec_len(&class.schemas);
                }
                class.schemas[schema_id as usize].get_properties()[j]
            };
            proof {
                assert(propsg[j as int] == pid);
            }
            if !entity.values.contains_key(pid) {
                let staged = match input.remove_key(pid) {
                    Some(v) => v,
                    None => PropertyValue::default(),
                };
                proof {
                    assert(staged == spec_staged_value(input0@, pid));
                }
                entity.values.insert(pid, staged);
            }
            proof {
                assert(entity.values@.dom() =~= e0.values@.dom().union(
                    propsg.subrange(0, j + 1 as int).to_set(),
                )) by {
                    assert(propsg.subrange(0, j + 1 as int) =~= propsg.subrange(0, j as int).push(
                        propsg[j as int],
                    ));
                    propsg.subrange(0, j as int).lemma_push_to_set_commute(propsg[j as int]);
                }
                assert forall|pid2: PropertyId|
                    propsg.subrange(0, j + 1 as int).contains(pid2)
                        && !e0.values@.dom().contains(pid2) implies entity.values@[pid2]
                    == spec_staged_value(input0@, pid2) by {
                    if pid2 != pid {
                        let sub = propsg.subrange(0, j + 1 as int);
                        let j2 = choose|j2: int| 0 <= j2 < sub.len() && sub[j2] == pid2;
                        assert(j2 < j);
                        assert(propsg.subrange(0, j as int)[j2] == pid2);
                        assert(propsg.subrange(0, j as int).contains(pid2));
                    }
                }
            }
            j += 1;
        }
        proof {
            assert(propsg.subrange(0, propsg.len() as int) =~= propsg);
        }
        entity.supported_schemas.insert(schema_id);
        self.entity_by_id.insert(entity_id, entity);
        proof {
            assert(self.entity_by_id@.dom() =~= old(self).entity_by_id@.dom());
            Store::lemma_counts_unchanged(*old(self), *self);
        }
        let ghost ms = old(self).spec_support_refs(
            entity_id,
            propsg,
            property_values@,
            propsg.len() as int,
            true,
        );
        let ghost mo = old(self).spec_support_refs(
            entity_id,
            propsg,
            property_values@,
            propsg.len() as int,
            false,
        );
        let ghost smid = *self;
        proof {
            assert(propsg == old(self).class_by_id@[
                old(self).entity_by_id@[entity_id].class_id
            ].schemas@[schema_id as int].spec_properties());
            assert forall|id: EntityId| #[trigger] old(self).entity_by_id@.dom().contains(
                id,
            ) implies smid.entity_by_id@[id].reference_count == old(self).entity_by_id@[
                id
            ].reference_count && smid.entity_by_id@[
                id
            ].inbound_same_owner_references_from_other_entities_count == old(self).entity_by_id@[
                id
            ].inbound_same_owner_references_from_other_entities_count by {}
            assert forall|x: EntityId|
                spec_rc_delta(#[trigger] increments.inbound_same_owner_entity_rcs@, x)
                    == ms.count(x) && spec_rc_delta(increments.inbound_entity_rcs@, x)
                    == mo.count(x) by {}
        }
        if let Err(e) = self.increment_entity_rcs(&increments.inbound_same_owner_entity_rcs, true) {
            proof {
                if (forall|id: EntityId|
                    #[trigger] old(self).entity_by_id@.dom().contains(id) ==> old(
                        self,
                    ).entity_by_id@[id].reference_count + ms.count(id) + mo.count(id)
                        <= ReferenceCounter::MAX) {
                    assert forall|id: EntityId| #[trigger] smid.entity_by_id@.dom().contains(
                        id,
                    ) implies smid.entity_by_id@[id].reference_count + spec_rc_delta(
                        increments.inbound_same_owner_entity_rcs@,
                        id,
                    ) <= ReferenceCounter::MAX by {
                        assert(mo.count(id) >= 0);
                    }
                    assert(false);
                }
            }
            return Err(e);
        }
        let ghost s2 = *self;
        if let Err(e) = self.increment_entity_rcs(&increments.inbound_entity_rcs, false) {
            proof {
                if (forall|id: EntityId|
                    #[trigger] old(self).entity_by_id@.dom().contains(id) ==> old(
                        self,
                    ).entity_by_id@[id].reference_count + ms.count(id) + mo.count(id)
                        <= ReferenceCounter::MAX) {
                    assert forall|id: EntityId| #[trigger] s2.entity_by_id@.dom().contains(
                        id,
                    ) implies s2.entity_by_id@[id].reference_count + spec_rc_delta(
                        increments.inbound_entity_rcs@,
                        id,
                    ) <= ReferenceCounter::MAX by {
                        assert(s2.entity_by_id@[id].reference_count == smid.entity_by_id@[
                            id
                        ].reference_count + ms.count(id));
                    }
                    assert(false);
                }
            }
            return Err(e);
        }
        proof {
            assert forall|id: EntityId| #[trigger] old(self).entity_by_id@.dom().contains(
                id,
            ) implies self.entity_by_id@[id].reference_count == old(self).entity_by_id@[
                id
            ].reference_count + ms.count(id) + mo.count(id) && self.entity_by_id@[
                id
            ].inbound_same_owner_references_from_other_entities_count == old(self).entity_by_id@[
                id
            ].inbound_same_owner_references_from_other_entities_count + ms.count(id) by {
                assert(s2.entity_by_id@[id].reference_count == smid.entity_by_id@[
                    id
                ].reference_count + ms.count(id));
                assert(s2.entity_by_id@[
                    id
                ].inbound_same_owner_references_from_other_entities_count == smid.entity_by_id@[
                    id
                ].inbound_same_owner_references_from_other_entities_count + ms.count(id));
            }
        }
        self.events.push(Event::EntitySchemaSupportAdded(actor, entity_id, schema_id));
        Ok(())
    }
}

/// The first position at or after `start` holding `pid`; the length when
/// there is none.
pub open spec fn spec_first_index(props: Seq<PropertyId>, pid: PropertyId, start: int) -> int
    decreases props.len() - start,
{
    if start < 0 || start >= props.len() {
        props.len() as int
    } else if props[start] == pid {
        start
    } else {
        spec_first_index(props, pid, start + 1)
    }
}

/// With an occurrence in range, the first index is the least occurrence.
proof fn lemma_first_index(props: Seq<PropertyId>, pid: PropertyId, start: int)
    requires
        0 <= start <= props.len(),
        exists|j: int| start <= j < props.len() && props[j] == pid,
    ensures
        start <= spec_first_index(props, pid, start) < props.len(),
        props[spec_first_index(props, pid, start)] == pid,
        forall|j: int| start <= j < spec_first_index(props, pid, start) ==> props[j] != pid,
    decreases props.len() - start,
{
    let jw = choose|j: int| start <= j < props.len() && props[j] == pid;
    if props[start] == pid {
    } else {
        assert(jw >= start + 1);
        lemma_first_index(props, pid, start + 1);
    }
}

/// Whether the vector holds `x`.
fn vec_contains(v: &Vec<u64>, x: u64) -> (r: bool)
    ensures
        r == v@.contains(x),
{
    let n = v.len();
    let mut i: usize = 0;
    while i < n
        invariant
            n == v.len(),
            i <= n,
            forall|j: int| 0 <= j < i ==> v@[j] != x,
        decreases n - i,
    {
        if v[i] == x {
            proof {
                assert(v@[i as int] == x);
            }
            return true;
        }
        i += 1;
    }
    false
}

} // verus!
