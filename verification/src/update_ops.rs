//! Updating entity property values: per-property validation, equality
//! skipping, and exact reference-counter deltas with position-paired
//! cancellation.

use vstd::prelude::*;
use vstd::multiset::Multiset;
use crate::class::Class;
use crate::collections::key_seq;
use crate::entity::EntitiesRc;
use crate::collections::KvMap;
use crate::errors::Error;
use crate::events::Event;
use crate::permissions::Actor;
use crate::permissions::EntityAccessLevel;
use crate::permissions::Origin;
use crate::schema::pv_eq;
use crate::schema::PropertyValue;
use crate::store::Store;
use crate::value_ops::rc_only_change;
use crate::value_ops::spec_rc_delta;
use crate::ReferenceCounter;
use crate::EntityId;
use crate::Nonce;

verus! {


/// The references to drop when one reference list replaces another:
/// position-paired equal entries cancel; the old list's unpaired tail and
/// every differing paired entry count.  `i` bounds the positions taken.
pub open spec fn spec_diff_dec(cur: Seq<EntityId>, new: Seq<EntityId>, i: int) -> Multiset<
    EntityId,
>
    decreases i,
{
    if i <= 0 {
        Multiset::empty()
    } else {
        let rest = spec_diff_dec(cur, new, i - 1);
        let j = i - 1;
        if j < cur.len() && j < new.len() {
            if cur[j] != new[j] {
                rest.insert(cur[j])
            } else {
                rest
            }
        } else if j < cur.len() {
            rest.insert(cur[j])
        } else {
            rest
        }
    }
}

/// The references to take up, mirrored from `spec_diff_dec`.
pub open spec fn spec_diff_inc(cur: Seq<EntityId>, new: Seq<EntityId>, i: int) -> Multiset<
    EntityId,
>
    decreases i,
{
    if i <= 0 {
        Multiset::empty()
    } else {
        let rest = spec_diff_inc(cur, new, i - 1);
        let j = i - 1;
        if j < cur.len() && j < new.len() {
            if cur[j] != new[j] {
                rest.insert(new[j])
            } else {
                rest
            }
        } else if j < new.len() {
            rest.insert(new[j])
        } else {
            rest
        }
    }
}

/// The longer of the two lists' lengths: the positions the difference scans.
pub open spec fn spec_diff_len(cur: Seq<EntityId>, new: Seq<EntityId>) -> int {
    if cur.len() > new.len() {
        cur.len() as int
    } else {
        new.len() as int
    }
}

impl Store {
    /// One input entry passes the update checks: the property exists on
    /// the entity, and — unless the new value equals the current one or
    /// the class does not declare the property — it is unlocked, valid,
    /// and respects uniqueness.
    pub open spec fn spec_update_entry_ok(
        &self,
        entity_id: EntityId,
        level: EntityAccessLevel,
        k: u64,
        v: PropertyValue,
    ) -> bool {
        let e = self.entity_by_id@[entity_id];
        let class = self.class_by_id@[e.class_id];
        &&& e.values@.dom().contains(k)
        &&& ((!pv_eq(v, e.values@[k]) && (k as int) < class.properties@.len()) ==> {
            let p = class.properties@[k as int];
            &&& !p.spec_is_locked_from(level)
            &&& self.spec_value_to_update_valid(
                p.prop_type,
                v,
                e.entity_permission.controller,
            ) is Ok
            &&& ((p.unique && (!v.spec_is_default() || p.required))
                ==> Store::spec_value_unique_on_entity(e.values@, k, v))
        })
    }

    /// The access level granted by `spec_class_entity_access`, defaulting
    /// arbitrarily when access is denied.
    pub open spec fn spec_granted_level(
        &self,
        origin: Origin,
        entity_id: EntityId,
        actor: Actor,
    ) -> EntityAccessLevel {
        match self.spec_class_entity_access(origin, entity_id, actor) {
            Ok(level) => level,
            Err(_) => EntityAccessLevel::Any,
        }
    }

    /// Success of `update_entity_property_values`: the caller holds an
    /// access level, the class is not globally locked, and every supplied
    /// entry passes the per-property checks.
    pub open spec fn spec_update_values_ok(
        &self,
        origin: Origin,
        actor: Actor,
        entity_id: EntityId,
        input: Map<u64, PropertyValue>,
    ) -> bool {
        &&& self.spec_class_entity_access(origin, entity_id, actor) is Ok
        &&& !self.class_by_id@[
            self.entity_by_id@[entity_id].class_id
        ].class_permissions.all_entity_property_values_locked
        &&& forall|k: u64|
            #[trigger] input.dom().contains(k) ==> self.spec_update_entry_ok(
                entity_id,
                self.spec_granted_level(origin, entity_id, actor),
                k,
                input[k],
            )
    }

    /// Whether the update writes anything: some supplied value differs
    /// from the current one.
    pub open spec fn spec_update_changes_something(
        &self,
        entity_id: EntityId,
        input: Map<u64, PropertyValue>,
    ) -> bool {
        exists|k: u64|
            #[trigger] input.dom().contains(k) && self.entity_by_id@[
                entity_id
            ].values@.dom().contains(k) && !pv_eq(input[k], self.entity_by_id@[entity_id].values@[k])
    }

    /// The value stored under `k` after the update.
    pub open spec fn spec_update_result_value(
        e0_values: Map<u64, PropertyValue>,
        class: &Class,
        input: Map<u64, PropertyValue>,
        k: u64,
    ) -> PropertyValue {
        if input.dom().contains(k) && !pv_eq(input[k], e0_values[k]) && (k as int)
            < class.properties@.len() {
            PropertyValue::spec_updated(e0_values[k], input[k])
        } else {
            e0_values[k]
        }
    }


    /// The first error among the supplied entries, checked in entry order:
    /// the property must exist on the entity; a differing value of a
    /// class-declared property must be unlocked, valid, unique where the
    /// property demands it, and — for a vector — leave the nonce room to
    /// grow.
    pub open spec fn spec_update_first_error(
        &self,
        entity_id: EntityId,
        level: EntityAccessLevel,
        entries: Seq<(u64, PropertyValue)>,
        i: int,
    ) -> Result<(), Error>
        decreases entries.len() - i,
    {
        let e = self.entity_by_id@[entity_id];
        let class = self.class_by_id@[e.class_id];
        if i < 0 || i >= entries.len() {
            Ok(())
        } else {
            let k = entries[i].0;
            let v = entries[i].1;
            if !e.values@.dom().contains(k) {
                Err(Error::UnknownPropertyId)
            } else if pv_eq(v, e.values@[k]) || (k as int) >= class.properties@.len() {
                self.spec_update_first_error(entity_id, level, entries, i + 1)
            } else {
                let p = class.properties@[k as int];
                if p.spec_is_locked_from(level) {
                    Err(Error::PropertyLockedForActor)
                } else if self.spec_value_to_update_valid(
                    p.prop_type,
                    v,
                    e.entity_permission.controller,
                ) is Err {
                    self.spec_value_to_update_valid(p.prop_type, v, e.entity_permission.controller)
                } else if p.unique && (!v.spec_is_default() || p.required)
                    && !Store::spec_value_unique_on_entity(e.values@, k, v) {
                    Err(Error::PropertyValueNotUnique)
                } else if (e.values@[k] matches PropertyValue::Vector(vv) && vv.nonce
                    == Nonce::MAX) {
                    Err(Error::InternalInvariantBroken)
                } else {
                    self.spec_update_first_error(entity_id, level, entries, i + 1)
                }
            }
        }
    }

    /// The exact pre-mutation outcome of `update_entity_property_values`.
    pub open spec fn spec_update_entity_property_values(
        &self,
        origin: Origin,
        actor: Actor,
        entity_id: EntityId,
        entries: Seq<(u64, PropertyValue)>,
    ) -> Result<(), Error> {
        match self.spec_class_entity_access(origin, entity_id, actor) {
            Err(e) => Err(e),
            Ok(level) => {
                if self.class_by_id@[
                    self.entity_by_id@[entity_id].class_id
                ].class_permissions.all_entity_property_values_locked {
                    Err(Error::AllPropertiesLockedAtClassLevel)
                } else {
                    self.spec_update_first_error(entity_id, level, entries, 0)
                }
            },
        }
    }


    /// The reference-counter deltas the supplied entries induce: the
    /// position-cancelled difference of each written reference property,
    /// bucketed by the property's same-controller flag (`want_same`) and
    /// by direction (`inc`), over the first `i` entries.
    pub open spec fn spec_update_refs(
        &self,
        entity_id: EntityId,
        entries: Seq<(u64, PropertyValue)>,
        i: int,
        want_same: bool,
        inc: bool,
    ) -> Multiset<EntityId>
        decreases i,
    {
        let e = self.entity_by_id@[entity_id];
        let class = self.class_by_id@[e.class_id];
        if i <= 0 || i > entries.len() {
            Multiset::empty()
        } else {
            let rest = self.spec_update_refs(entity_id, entries, i - 1, want_same, inc);
            let k = entries[i - 1].0;
            let v = entries[i - 1].1;
            if e.values@.dom().contains(k) && !pv_eq(v, e.values@[k]) && (k as int)
                < class.properties@.len() && class.properties@[
                k as int
            ].prop_type.spec_same_controller() == want_same && v.spec_refs_opt() is Some
                && e.values@[k].spec_refs_opt() is Some {
                let curq = e.values@[k].spec_refs();
                let newq = v.spec_refs();
                rest.add(
                    if inc {
                        spec_diff_inc(curq, newq, spec_diff_len(curq, newq))
                    } else {
                        spec_diff_dec(curq, newq, spec_diff_len(curq, newq))
                    },
                )
            } else {
                rest
            }
        }
    }

    /// Taking more entries never lowers a delta.
    proof fn lemma_update_refs_monotone(
        &self,
        entity_id: EntityId,
        entries: Seq<(u64, PropertyValue)>,
        i: int,
        i2: int,
        want_same: bool,
        inc: bool,
        x: EntityId,
    )
        requires
            0 <= i <= i2 <= entries.len(),
        ensures
            self.spec_update_refs(entity_id, entries, i, want_same, inc).count(x)
                <= self.spec_update_refs(entity_id, entries, i2, want_same, inc).count(x),
        decreases i2 - i,
    {
        if i < i2 {
            self.lemma_update_refs_monotone(entity_id, entries, i, i2 - 1, want_same, inc, x);
        }
    }

    /// Writes the supplied property values that pass validation and differ
    /// from the stored ones, and adjusts the reference counters by the
    /// exact, position-cancelled deltas.  Supplying only current values is
    /// a no-op: nothing is written and no event is emitted.
    pub fn update_entity_property_values(
        &mut self,
        origin: Origin,
        actor: Actor,
        entity_id: EntityId,
        new_property_values: KvMap<PropertyValue>,
    ) -> (r: Result<(), Error>)
        requires
            old(self).wf(),
            new_property_values.wf(),
        ensures
            final(self).wf(),
            r is Err ==> final(self).events == old(self).events,
            final(self).config == old(self).config,
            final(self).authority == old(self).authority,
            (r is Err && r != Result::<(), Error>::Err(Error::InternalInvariantBroken)) ==> r
                == old(self).spec_update_entity_property_values(
                origin,
                actor,
                entity_id,
                new_property_values.entry_seq(),
            ),
            r is Ok ==> old(self).spec_update_values_ok(
                origin,
                actor,
                entity_id,
                new_property_values@,
            ),
            old(self).spec_update_values_ok(origin, actor, entity_id, new_property_values@) ==> (r
                is Ok || r == Result::<(), Error>::Err(Error::InternalInvariantBroken)),
            (r is Err && r != Result::<(), Error>::Err(Error::InternalInvariantBroken)) ==> *final(self) == *old(self),
            r is Ok && !old(self).spec_update_changes_something(entity_id, new_property_values@)
                ==> *final(self) == *old(self),
            ({
                let entries = new_property_values.entry_seq();
                let n = entries.len() as int;
                let mis = old(self).spec_update_refs(entity_id, entries, n, true, true);
                let mio = old(self).spec_update_refs(entity_id, entries, n, false, true);
                let mds = old(self).spec_update_refs(entity_id, entries, n, true, false);
                let mdo = old(self).spec_update_refs(entity_id, entries, n, false, false);
                &&& old(self).spec_update_entity_property_values(origin, actor, entity_id, entries)
                    is Ok
                &&& forall|x: EntityId| #[trigger] mis.count(x) <= ReferenceCounter::MAX
                &&& forall|x: EntityId| #[trigger] mio.count(x) <= ReferenceCounter::MAX
                &&& forall|x: EntityId| #[trigger] mds.count(x) <= ReferenceCounter::MAX
                &&& forall|x: EntityId| #[trigger] mdo.count(x) <= ReferenceCounter::MAX
                &&& forall|id: EntityId|
                    #[trigger] old(self).entity_by_id@.dom().contains(id) ==> old(
                        self,
                    ).entity_by_id@[id].reference_count + mis.count(id) + mio.count(id)
                        <= ReferenceCounter::MAX
                &&& forall|id: EntityId|
                    #[trigger] old(self).entity_by_id@.dom().contains(id) ==> mds.count(id)
                        <= old(self).entity_by_id@[
                        id
                    ].inbound_same_owner_references_from_other_entities_count + mis.count(id)
                &&& forall|id: EntityId|
                    #[trigger] old(self).entity_by_id@.dom().contains(id) ==> mdo.count(id)
                        <= old(self).entity_by_id@[id].reference_count - old(
                        self,
                    ).entity_by_id@[
                        id
                    ].inbound_same_owner_references_from_other_entities_count + mio.count(id)
            }) ==> r is Ok,
            r is Ok ==> {
                let entries = new_property_values.entry_seq();
                let n = entries.len() as int;
                let mis = old(self).spec_update_refs(entity_id, entries, n, true, true);
                let mio = old(self).spec_update_refs(entity_id, entries, n, false, true);
                let mds = old(self).spec_update_refs(entity_id, entries, n, true, false);
                let mdo = old(self).spec_update_refs(entity_id, entries, n, false, false);
                forall|id: EntityId|
                    #[trigger] old(self).entity_by_id@.dom().contains(id) ==> {
                        &&& final(self).entity_by_id@[id].reference_count == old(
                            self,
                        ).entity_by_id@[id].reference_count + mis.count(id) + mio.count(id)
                            - mds.count(id) - mdo.count(id)
                        &&& final(self).entity_by_id@[
                            id
                        ].inbound_same_owner_references_from_other_entities_count == old(
                            self,
                        ).entity_by_id@[
                            id
                        ].inbound_same_owner_references_from_other_entities_count + mis.count(id)
                            - mds.count(id)
                    }
            },
            r is Ok ==> {
                let e0 = old(self).entity_by_id@[entity_id];
                let c0 = old(self).class_by_id@[e0.class_id];
                &&& final(self).entity_by_id@.dom() == old(self).entity_by_id@.dom()
                &&& final(self).entity_by_id@[entity_id].values@.dom() == e0.values@.dom()
                &&& forall|k: u64|
                    #[trigger] e0.values@.dom().contains(k) ==> final(self).entity_by_id@[entity_id].values@[k] == Store::spec_update_result_value(
                        e0.values@,
                        &c0,
                        new_property_values@,
                        k,
                    )
                &&& final(self).entity_by_id@[entity_id].entity_permission == e0.entity_permission
                &&& final(self).entity_by_id@[entity_id].class_id == e0.class_id
                &&& final(self).entity_by_id@[entity_id].supported_schemas == e0.supported_schemas
                &&& forall|id: EntityId|
                    id != entity_id && old(self).entity_by_id@.dom().contains(id)
                        ==> rc_only_change(
                        old(self).entity_by_id@[id],
                        #[trigger] final(self).entity_by_id@[id],
                    )
                &&& (old(self).spec_update_changes_something(entity_id, new_property_values@)
                    ==> final(self).events@ == old(self).events@.push(
                    Event::EntityPropertyValuesUpdated(actor, entity_id),
                ))
                &&& (!old(self).spec_update_changes_something(entity_id, new_property_values@)
                    ==> final(self).events@ == old(self).events@)
                &&& final(self).class_by_id == old(self).class_by_id
                &&& final(self).curator_group_by_id == old(self).curator_group_by_id
                &&& final(self).entity_creation_vouchers == old(self).entity_creation_vouchers
                &&& final(self).next_curator_group_id == old(self).next_curator_group_id
                &&& final(self).next_class_id == old(self).next_class_id
                &&& final(self).next_entity_id == old(self).next_entity_id
                &&& final(self).config == old(self).config
                &&& final(self).authority == old(self).authority
            },
    {
        let access_level = match self.class_entity_and_access_level(origin, entity_id, &actor) {
            Ok(level) => level,
            Err(e) => {
                return Err(e);
            },
        };
        let mut updated = false;
        let mut class_props_len: u64 = 0;
        let mut increments = EntitiesRc::default();
        let mut decrements = EntitiesRc::default();
        {
            let (entity, class) = match self.get_entity_and_class(entity_id) {
                Ok(pair) => pair,
                Err(e) => {
                    return Err(e);
                },
            };
            if class.class_permissions.all_entity_property_values_locked() {
                return Err(Error::AllPropertiesLockedAtClassLevel);
            }
            let controller = entity.get_permissions().get_controller();
            proof {
                vstd::std_specs::vec::axiom_spec_len(&class.properties);
            }
            class_props_len = class.properties.len() as u64;
            let n = new_property_values.len();
            let mut i: usize = 0;
            while i < n
                invariant
                    old(self).wf(),
                    *self == *old(self),
                    new_property_values.wf(),
                    n == new_property_values.entry_seq().len(),
                    i <= n,
                    old(self).spec_class_entity_access(origin, entity_id, actor)
                        == Result::<EntityAccessLevel, Error>::Ok(access_level),
                    old(self).spec_update_first_error(
                        entity_id,
                        access_level,
                        new_property_values.entry_seq(),
                        0,
                    ) == old(self).spec_update_first_error(
                        entity_id,
                        access_level,
                        new_property_values.entry_seq(),
                        i as int,
                    ),
                    old(self).entity_by_id@.dom().contains(entity_id),
                    *entity == old(self).entity_by_id@[entity_id],
                    *class == old(self).class_by_id@[entity.class_id],
                    !class.class_permissions.all_entity_property_values_locked,
                    controller == entity.entity_permission.controller,
                    entity.wf(),
                    increments.wf(),
                    decrements.wf(),
                    !updated ==> increments.inbound_same_owner_entity_rcs@ == Map::<
                        u64,
                        ReferenceCounter,
                    >::empty() && increments.inbound_entity_rcs@ == Map::<
                        u64,
                        ReferenceCounter,
                    >::empty() && decrements.inbound_same_owner_entity_rcs@ == Map::<
                        u64,
                        ReferenceCounter,
                    >::empty() && decrements.inbound_entity_rcs@ == Map::<
                        u64,
                        ReferenceCounter,
                    >::empty(),
                    forall|j: int|
                        0 <= j < i ==> old(self).spec_update_entry_ok(
                            entity_id,
                            access_level,
                            (#[trigger] new_property_values.entry_seq()[j]).0,
                            new_property_values.entry_seq()[j].1,
                        ),
                    updated == exists|j: int|
                        0 <= j < i && entity.values@.dom().contains(
                            (#[trigger] new_property_values.entry_seq()[j]).0,
                        ) && !pv_eq(
                            new_property_values.entry_seq()[j].1,
                            entity.values@[new_property_values.entry_seq()[j].0],
                        ),
                    forall|j: int|
                        0 <= j < i ==> {
                            let k = (#[trigger] new_property_values.entry_seq()[j]).0;
                            let v = new_property_values.entry_seq()[j].1;
                            (!pv_eq(v, entity.values@[k]) && (k as int) < class.properties@.len())
                                ==> (entity.values@[k] matches PropertyValue::Vector(vv)
                                ==> vv.nonce < Nonce::MAX)
                        },
                    forall|x: EntityId|
                        spec_rc_delta(#[trigger] increments.inbound_same_owner_entity_rcs@, x)
                            == old(self).spec_update_refs(
                            entity_id,
                            new_property_values.entry_seq(),
                            i as int,
                            true,
                            true,
                        ).count(x),
                    forall|x: EntityId|
                        spec_rc_delta(#[trigger] increments.inbound_entity_rcs@, x) == old(
                            self,
                        ).spec_update_refs(
                            entity_id,
                            new_property_values.entry_seq(),
                            i as int,
                            false,
                            true,
                        ).count(x),
                    forall|x: EntityId|
                        spec_rc_delta(#[trigger] decrements.inbound_same_owner_entity_rcs@, x)
                            == old(self).spec_update_refs(
                            entity_id,
                            new_property_values.entry_seq(),
                            i as int,
                            true,
                            false,
                        ).count(x),
                    forall|x: EntityId|
                        spec_rc_delta(#[trigger] decrements.inbound_entity_rcs@, x) == old(
                            self,
                        ).spec_update_refs(
                            entity_id,
                            new_property_values.entry_seq(),
                            i as int,
                            false,
                            false,
                        ).count(x),
                decreases n - i,
            {
                let (k, v) = new_property_values.entry_at(i);
                let cur = match entity.values.get(k) {
                    Some(cur) => cur,
                    None => {
                        return Err(Error::UnknownPropertyId);
                    },
                };
                if v.equals(cur) {
                    proof {
                        assert(entity.values@.dom().contains(k));
                        assert forall|x: EntityId, want: bool, incf: bool|
                            #[trigger] old(self).spec_update_refs(
                                entity_id,
                                new_property_values.entry_seq(),
                                i + 1 as int,
                                want,
                                incf,
                            ).count(x) == old(self).spec_update_refs(
                                entity_id,
                                new_property_values.entry_seq(),
                                i as int,
                                want,
                                incf,
                            ).count(x) by {
                            assert(new_property_values.entry_seq()[i as int] == (k, *v));
                        }
                    }
                    i += 1;
                    continue ;
                }
                updated = true;
                proof {
                    vstd::std_specs::vec::axiom_spec_len(&class.properties);
                }
                if k >= class.properties.len() as u64 {
                    proof {
                        assert forall|x: EntityId, want: bool, incf: bool|
                            #[trigger] old(self).spec_update_refs(
                                entity_id,
                                new_property_values.entry_seq(),
                                i + 1 as int,
                                want,
                                incf,
                            ).count(x) == old(self).spec_update_refs(
                                entity_id,
                                new_property_values.entry_seq(),
                                i as int,
                                want,
                                incf,
                            ).count(x) by {
                            assert(new_property_values.entry_seq()[i as int] == (k, *v));
                        }
                    }
                    i += 1;
                    continue ;
                }
                let p = &class.properties[k as usize];
                if p.is_locked_from(access_level) {
                    return Err(Error::PropertyLockedForActor);
                }
                if let Err(e) = self.ensure_property_value_to_update_is_valid(
                    p.prop_type,
                    v,
                    &controller,
                ) {
                    return Err(e);
                }
                if p.unique && (!v.is_default() || p.required) {
                    if !Store::value_unique_on_entity(&entity.values, k, v) {
                        return Err(Error::PropertyValueNotUnique);
                    }
                }
                if let PropertyValue::Vector(vv) = cur {
                    if vv.get_nonce() == Nonce::MAX {
                        return Err(Error::InternalInvariantBroken);
                    }
                }
                let same = p.prop_type.same_controller_status();
                let new_refs = v.get_involved_entities();
                let cur_refs = cur.get_involved_entities();
                let ghost entriesg = new_property_values.entry_seq();
                let ghost pre_is = increments.inbound_same_owner_entity_rcs@;
                let ghost pre_io = increments.inbound_entity_rcs@;
                let ghost pre_ds = decrements.inbound_same_owner_entity_rcs@;
                let ghost pre_do = decrements.inbound_entity_rcs@;
                if let (Some(new_ids), Some(cur_ids)) = (new_refs, cur_refs) {
                    let (dec_ids, inc_ids) = diff_refs(&cur_ids, &new_ids);
                    proof {
                        let ghost other_flag = !same;
                        assert(entriesg[i as int] == (k, *v));
                        assert forall|x: EntityId, incf: bool|
                            #[trigger] old(self).spec_update_refs(
                                entity_id,
                                entriesg,
                                i + 1 as int,
                                same,
                                incf,
                            ).count(x) == old(self).spec_update_refs(
                                entity_id,
                                entriesg,
                                i as int,
                                same,
                                incf,
                            ).count(x) + (if incf {
                                inc_ids@.to_multiset().count(x) as int
                            } else {
                                dec_ids@.to_multiset().count(x) as int
                            }) by {}
                        assert forall|x: EntityId, incf: bool|
                            #[trigger] old(self).spec_update_refs(
                                entity_id,
                                entriesg,
                                i + 1 as int,
                                other_flag,
                                incf,
                            ).count(x) == old(self).spec_update_refs(
                                entity_id,
                                entriesg,
                                i as int,
                                other_flag,
                                incf,
                            ).count(x) by {}
                    }
                    let fill = if same {
                        let r1 = Store::fill_in_entity_rcs_map(
                            &inc_ids,
                            &mut increments.inbound_same_owner_entity_rcs,
                        );
                        let r2 = Store::fill_in_entity_rcs_map(
                            &dec_ids,
                            &mut decrements.inbound_same_owner_entity_rcs,
                        );
                        r1.is_err() || r2.is_err()
                    } else {
                        let r1 = Store::fill_in_entity_rcs_map(
                            &inc_ids,
                            &mut increments.inbound_entity_rcs,
                        );
                        let r2 = Store::fill_in_entity_rcs_map(
                            &dec_ids,
                            &mut decrements.inbound_entity_rcs,
                        );
                        r1.is_err() || r2.is_err()
                    };
                    if fill {
                        proof {
                            let n2 = entriesg.len() as int;
                            if (forall|x: EntityId|
                                #[trigger] old(self).spec_update_refs(
                                    entity_id,
                                    entriesg,
                                    n2,
                                    true,
                                    true,
                                ).count(x) <= ReferenceCounter::MAX) && (forall|x: EntityId|
                                #[trigger] old(self).spec_update_refs(
                                    entity_id,
                                    entriesg,
                                    n2,
                                    false,
                                    true,
                                ).count(x) <= ReferenceCounter::MAX) && (forall|x: EntityId|
                                #[trigger] old(self).spec_update_refs(
                                    entity_id,
                                    entriesg,
                                    n2,
                                    true,
                                    false,
                                ).count(x) <= ReferenceCounter::MAX) && (forall|x: EntityId|
                                #[trigger] old(self).spec_update_refs(
                                    entity_id,
                                    entriesg,
                                    n2,
                                    false,
                                    false,
                                ).count(x) <= ReferenceCounter::MAX) {
                                if same {
                                    assert forall|x: EntityId|
                                        #[trigger] spec_rc_delta(pre_is, x)
                                            + inc_ids@.to_multiset().count(x)
                                            <= ReferenceCounter::MAX by {
                                        old(self).lemma_update_refs_monotone(
                                            entity_id,
                                            entriesg,
                                            i + 1 as int,
                                            n2,
                                            true,
                                            true,
                                            x,
                                        );
                                    }
                                    assert forall|x: EntityId|
                                        #[trigger] spec_rc_delta(pre_ds, x)
                                            + dec_ids@.to_multiset().count(x)
                                            <= ReferenceCounter::MAX by {
                                        old(self).lemma_update_refs_monotone(
                                            entity_id,
                                            entriesg,
                                            i + 1 as int,
                                            n2,
                                            true,
                                            false,
                                            x,
                                        );
                                    }
                                } else {
                                    assert forall|x: EntityId|
                                        #[trigger] spec_rc_delta(pre_io, x)
                                            + inc_ids@.to_multiset().count(x)
                                            <= ReferenceCounter::MAX by {
                                        old(self).lemma_update_refs_monotone(
                                            entity_id,
                                            entriesg,
                                            i + 1 as int,
                                            n2,
                                            false,
                                            true,
                                            x,
                                        );
                                    }
                                    assert forall|x: EntityId|
                                        #[trigger] spec_rc_delta(pre_do, x)
                                            + dec_ids@.to_multiset().count(x)
                                            <= ReferenceCounter::MAX by {
                                        old(self).lemma_update_refs_monotone(
                                            entity_id,
                                            entriesg,
                                            i + 1 as int,
                                            n2,
                                            false,
                                            false,
                                            x,
                                        );
                                    }
                                }
                                assert(false);
                            }
                        }
                        return Err(Error::InternalInvariantBroken);
                    }
                } else {
                    proof {
                        assert(entriesg[i as int] == (k, *v));
                        assert forall|x: EntityId, want: bool, incf: bool|
                            #[trigger] old(self).spec_update_refs(
                                entity_id,
                                entriesg,
                                i + 1 as int,
                                want,
                                incf,
                            ).count(x) == old(self).spec_update_refs(
                                entity_id,
                                entriesg,
                                i as int,
                                want,
                                incf,
                            ).count(x) by {}
                    }
                }
                i += 1;
            }
            proof {
                assert(old(self).spec_update_first_error(
                    entity_id,
                    access_level,
                    new_property_values.entry_seq(),
                    0,
                ) is Ok);
                new_property_values.lemma_entries();
                assert forall|k: u64| #[trigger] new_property_values@.dom().contains(k) implies old(self).spec_update_entry_ok(entity_id, access_level, k, new_property_values@[k]) by {
                    let ks = key_seq(new_property_values.entry_seq());
                    assert(ks.to_set().contains(k));
                    assert(ks.contains(k));
                    let j = choose|j: int| 0 <= j < ks.len() && ks[j] == k;
                    assert(new_property_values.entry_seq()[j].0 == k);
                    assert(new_property_values@[k] == new_property_values.entry_seq()[j].1);
                }
                if old(self).spec_update_changes_something(entity_id, new_property_values@) {
                    let k = choose|k: u64|
                        #[trigger] new_property_values@.dom().contains(k) && old(self).entity_by_id@[entity_id].values@.dom().contains(k) && !pv_eq(
                            new_property_values@[k],
                            old(self).entity_by_id@[entity_id].values@[k],
                        );
                    let ks = key_seq(new_property_values.entry_seq());
                    assert(ks.to_set().contains(k));
                    assert(ks.contains(k));
                    let j = choose|j: int| 0 <= j < ks.len() && ks[j] == k;
                    assert(new_property_values.entry_seq()[j].0 == k);
                    assert(updated);
                }
                if updated {
                    assert(old(self).spec_update_changes_something(
                        entity_id,
                        new_property_values@,
                    )) by {
                        let j = choose|j: int|
                            0 <= j < n && entity.values@.dom().contains(
                                (#[trigger] new_property_values.entry_seq()[j]).0,
                            ) && !pv_eq(
                                new_property_values.entry_seq()[j].1,
                                entity.values@[new_property_values.entry_seq()[j].0],
                            );
                        assert(new_property_values@.dom().contains(
                            new_property_values.entry_seq()[j].0,
                        ));
                    }
                }
            }
        }
        if !updated {
            proof {
                let entriesg = new_property_values.entry_seq();
                let n2 = entriesg.len() as int;
                assert forall|x: EntityId, want: bool, incf: bool|
                    #[trigger] old(self).spec_update_refs(
                        entity_id,
                        entriesg,
                        n2,
                        want,
                        incf,
                    ).count(x) == 0 by {
                    if want && incf {
                        assert(spec_rc_delta(increments.inbound_same_owner_entity_rcs@, x) == 0);
                    } else if !want && incf {
                        assert(spec_rc_delta(increments.inbound_entity_rcs@, x) == 0);
                    } else if want {
                        assert(spec_rc_delta(decrements.inbound_same_owner_entity_rcs@, x) == 0);
                    } else {
                        assert(spec_rc_delta(decrements.inbound_entity_rcs@, x) == 0);
                    }
                }
            }
            return Ok(());
        }
        let ghost e0 = old(self).entity_by_id@[entity_id];
        let ghost c0 = old(self).class_by_id@[e0.class_id];
        let ghost input0 = new_property_values;
        let mut entity = match self.entity_by_id.remove_key(entity_id) {
            Some(entity) => entity,
            None => {
                return Err(Error::EntityNotFound);
            },
        };
        let mut input = new_property_values;
        let ghost mut idx: int = 0;
        proof {
            assert(input.entry_seq() =~= input0.entry_seq().skip(0));
        }
        while input.len() > 0
            invariant
                old(self).wf(),
                input0.wf(),
                input.wf(),
                entity.wf(),
                0 <= idx <= input0.entry_seq().len(),
                input.entry_seq() == input0.entry_seq().skip(idx),
                e0 == old(self).entity_by_id@[entity_id],
                c0 == old(self).class_by_id@[e0.class_id],
                old(self).entity_by_id@.dom().contains(entity_id),
                class_props_len == c0.properties@.len(),
                self.entity_by_id@ == old(self).entity_by_id@.remove(entity_id),
                self.class_by_id == old(self).class_by_id,
                self.curator_group_by_id == old(self).curator_group_by_id,
                self.entity_creation_vouchers == old(self).entity_creation_vouchers,
                self.events == old(self).events,
                self.next_curator_group_id == old(self).next_curator_group_id,
                self.next_class_id == old(self).next_class_id,
                self.next_entity_id == old(self).next_entity_id,
                self.config == old(self).config,
                self.authority == old(self).authority,
                entity.class_id == e0.class_id,
                entity.entity_permission == e0.entity_permission,
                entity.supported_schemas == e0.supported_schemas,
                entity.reference_count == e0.reference_count,
                entity.inbound_same_owner_references_from_other_entities_count
                    == e0.inbound_same_owner_references_from_other_entities_count,
                entity.values@.dom() == e0.values@.dom(),
                forall|k: u64|
                    #[trigger] input0@.dom().contains(k) ==> e0.values@.dom().contains(k),
                forall|k: u64|
                    #[trigger] input0@.dom().contains(k) ==> ((!pv_eq(input0@[k], e0.values@[k])
                        && (k as int) < c0.properties@.len()) ==> (e0.values@[k]
                        matches PropertyValue::Vector(vv) ==> vv.nonce < Nonce::MAX)),
                forall|j: int|
                    0 <= j < idx ==> {
                        let k = (#[trigger] input0.entry_seq()[j]).0;
                        entity.values@[k] == Store::spec_update_result_value(
                            e0.values@,
                            &c0,
                            input0@,
                            k,
                        )
                    },
                forall|k: u64|
                    #[trigger] e0.values@.dom().contains(k) && (forall|j: int|
                        0 <= j < idx ==> (#[trigger] input0.entry_seq()[j]).0 != k)
                        ==> entity.values@[k] == e0.values@[k],
            decreases input.entry_seq().len(),
        {
            let next = input.pop_first();
            let (k, v) = match next {
                Some(entry) => entry,
                None => {
                    proof {
                        assert(false);
                    }
                    return Err(Error::InternalInvariantBroken);
                },
            };
            proof {
                assert(input0.entry_seq().skip(idx)[0] == input0.entry_seq()[idx]);
                assert(input.entry_seq() =~= input0.entry_seq().skip(idx + 1));
                input0.lemma_entries();
                assert(input0@.dom().contains(k));
                assert(input0@[k] == v);
            }
            let cur_is_equal = match entity.values.get(k) {
                Some(cur) => cur.equals(&v),
                None => {
                    proof {
                        assert(e0.values@.dom().contains(k));
                        assert(false);
                    }
                    true
                },
            };
            let skip_class = k >= class_props_len;
            if !cur_is_equal && !skip_class {
                let mut cur = match entity.values.remove_key(k) {
                    Some(cur) => cur,
                    None => {
                        proof {
                            assert(false);
                        }
                        return Err(Error::InternalInvariantBroken);
                    },
                };
                cur.update(v);
                entity.values.insert(k, cur);
                proof {
                    assert(entity.values@.dom() =~= e0.values@.dom());
                }
            }
            proof {
                let ks = key_seq(input0.entry_seq());
                assert forall|j: int| 0 <= j < idx implies (#[trigger] input0.entry_seq()[j]).0
                    != k by {
                    assert(ks[j] == input0.entry_seq()[j].0);
                    assert(ks[idx] == k);
                }
                idx = idx + 1;
            }
        }
        proof {
            assert(idx == input0.entry_seq().len());
            input0.lemma_entries();
            assert forall|k: u64| #[trigger] e0.values@.dom().contains(k) implies entity.values@[k]
                == Store::spec_update_result_value(e0.values@, &c0, input0@, k) by {
                if input0@.dom().contains(k) {
                    let ks = key_seq(input0.entry_seq());
                    assert(ks.to_set().contains(k));
                    assert(ks.contains(k));
                    let j = choose|j: int| 0 <= j < ks.len() && ks[j] == k;
                    assert(input0.entry_seq()[j].0 == k);
                } else {
                    assert forall|j: int| 0 <= j < input0.entry_seq().len() implies (
                    #[trigger] input0.entry_seq()[j]).0 != k by {
                        if input0.entry_seq()[j].0 == k {
                            assert(input0@.dom().contains(k));
                        }
                    }
                    assert(entity.values@[k] == e0.values@[k]);
                    assert(Store::spec_update_result_value(e0.values@, &c0, input0@, k)
                        == e0.values@[k]);
                }
            }
        }
        self.entity_by_id.insert(entity_id, entity);
        proof {
            assert(self.entity_by_id@.dom() =~= old(self).entity_by_id@.dom());
            Store::lemma_counts_unchanged(*old(self), *self);
        }
        let ghost entriesg = input0.entry_seq();
        let ghost n2 = entriesg.len() as int;
        let ghost mis = old(self).spec_update_refs(entity_id, entriesg, n2, true, true);
        let ghost mio = old(self).spec_update_refs(entity_id, entriesg, n2, false, true);
        let ghost mds = old(self).spec_update_refs(entity_id, entriesg, n2, true, false);
        let ghost mdo = old(self).spec_update_refs(entity_id, entriesg, n2, false, false);
        let ghost smid = *self;
        proof {
            assert forall|id2: EntityId| #[trigger] old(self).entity_by_id@.dom().contains(
                id2,
            ) implies smid.entity_by_id@[id2].reference_count == old(self).entity_by_id@[
                id2
            ].reference_count && smid.entity_by_id@[
                id2
            ].inbound_same_owner_references_from_other_entities_count == old(self).entity_by_id@[
                id2
            ].inbound_same_owner_references_from_other_entities_count by {}
            assert forall|x: EntityId|
                spec_rc_delta(#[trigger] increments.inbound_same_owner_entity_rcs@, x)
                    == mis.count(x) && spec_rc_delta(increments.inbound_entity_rcs@, x)
                    == mio.count(x) && spec_rc_delta(decrements.inbound_same_owner_entity_rcs@, x)
                    == mds.count(x) && spec_rc_delta(decrements.inbound_entity_rcs@, x)
                    == mdo.count(x) by {}
        }
        let ghost side = {
            &&& forall|id2: EntityId|
                #[trigger] old(self).entity_by_id@.dom().contains(id2) ==> old(
                    self,
                ).entity_by_id@[id2].reference_count + mis.count(id2) + mio.count(id2)
                    <= ReferenceCounter::MAX
            &&& forall|id2: EntityId|
                #[trigger] old(self).entity_by_id@.dom().contains(id2) ==> mds.count(id2) <= old(
                    self,
                ).entity_by_id@[
                    id2
                ].inbound_same_owner_references_from_other_entities_count + mis.count(id2)
            &&& forall|id2: EntityId|
                #[trigger] old(self).entity_by_id@.dom().contains(id2) ==> mdo.count(id2) <= old(
                    self,
                ).entity_by_id@[id2].reference_count - old(self).entity_by_id@[
                    id2
                ].inbound_same_owner_references_from_other_entities_count + mio.count(id2)
        };
        if let Err(e) = self.increment_entity_rcs(&increments.inbound_same_owner_entity_rcs, true) {
            proof {
                if side {
                    assert forall|id2: EntityId| #[trigger] smid.entity_by_id@.dom().contains(
                        id2,
                    ) implies smid.entity_by_id@[id2].reference_count + spec_rc_delta(
                        increments.inbound_same_owner_entity_rcs@,
                        id2,
                    ) <= ReferenceCounter::MAX by {
                        assert(mio.count(id2) >= 0);
                    }
                    assert(false);
                }
            }
            return Err(e);
        }
        let ghost s1 = *self;
        if let Err(e) = self.increment_entity_rcs(&increments.inbound_entity_rcs, false) {
            proof {
                if side {
                    assert forall|id2: EntityId| #[trigger] s1.entity_by_id@.dom().contains(
                        id2,
                    ) implies s1.entity_by_id@[id2].reference_count + spec_rc_delta(
                        increments.inbound_entity_rcs@,
                        id2,
                    ) <= ReferenceCounter::MAX by {
                        assert(s1.entity_by_id@[id2].reference_count == smid.entity_by_id@[
                            id2
                        ].reference_count + mis.count(id2));
                    }
                    assert(false);
                }
            }
            return Err(e);
        }
        let ghost s2 = *self;
        if let Err(e) = self.decrement_entity_rcs(&decrements.inbound_same_owner_entity_rcs, true) {
            proof {
                if side {
                    assert forall|id2: EntityId| #[trigger] s2.entity_by_id@.dom().contains(
                        id2,
                    ) implies spec_rc_delta(decrements.inbound_same_owner_entity_rcs@, id2)
                        <= s2.entity_by_id@[
                        id2
                    ].inbound_same_owner_references_from_other_entities_count as int by {
                        assert(s2.entity_by_id@[
                            id2
                        ].inbound_same_owner_references_from_other_entities_count
                            == smid.entity_by_id@[
                            id2
                        ].inbound_same_owner_references_from_other_entities_count + mis.count(
                            id2,
                        ));
                    }
                    assert(false);
                }
            }
            return Err(e);
        }
        let ghost s3 = *self;
        if let Err(e) = self.decrement_entity_rcs(&decrements.inbound_entity_rcs, false) {
            proof {
                if side {
                    assert forall|id2: EntityId| #[trigger] s3.entity_by_id@.dom().contains(
                        id2,
                    ) implies spec_rc_delta(decrements.inbound_entity_rcs@, id2)
                        <= s3.entity_by_id@[id2].reference_count - s3.entity_by_id@[
                        id2
                    ].inbound_same_owner_references_from_other_entities_count by {
                        assert(s3.entity_by_id@[id2].reference_count == smid.entity_by_id@[
                            id2
                        ].reference_count + mis.count(id2) + mio.count(id2) - mds.count(id2));
                        assert(s3.entity_by_id@[
                            id2
                        ].inbound_same_owner_references_from_other_entities_count
                            == smid.entity_by_id@[
                            id2
                        ].inbound_same_owner_references_from_other_entities_count + mis.count(
                            id2,
                        ) - mds.count(id2));
                    }
                    assert(false);
                }
            }
            return Err(e);
        }
        proof {
            assert forall|id2: EntityId| #[trigger] old(self).entity_by_id@.dom().contains(
                id2,
            ) implies self.entity_by_id@[id2].reference_count == old(self).entity_by_id@[
                id2
            ].reference_count + mis.count(id2) + mio.count(id2) - mds.count(id2) - mdo.count(id2)
                && self.entity_by_id@[
                id2
            ].inbound_same_owner_references_from_other_entities_count == old(self).entity_by_id@[
                id2
            ].inbound_same_owner_references_from_other_entities_count + mis.count(id2)
                - mds.count(id2) by {
                assert(s1.entity_by_id@[id2].reference_count == smid.entity_by_id@[
                    id2
                ].reference_count + mis.count(id2));
                assert(s2.entity_by_id@[id2].reference_count == s1.entity_by_id@[
                    id2
                ].reference_count + mio.count(id2));
                assert(s3.entity_by_id@[id2].reference_count == s2.entity_by_id@[
                    id2
                ].reference_count - mds.count(id2));
            }
        }
        self.events.push(Event::EntityPropertyValuesUpdated(actor, entity_id));
        Ok(())
    }
}

/// Position-paired difference of two reference lists: pairs that agree are
/// cancelled; what remains of the old list is to decrement, what remains
/// of the new one to increment.
fn diff_refs(cur_ids: &Vec<EntityId>, new_ids: &Vec<EntityId>) -> (r: (Vec<EntityId>, Vec<
    EntityId,
>))
    ensures
        r.0@.to_multiset() == spec_diff_dec(cur_ids@, new_ids@, spec_diff_len(cur_ids@, new_ids@)),
        r.1@.to_multiset() == spec_diff_inc(cur_ids@, new_ids@, spec_diff_len(cur_ids@, new_ids@)),
{
    broadcast use vstd::seq_lib::group_to_multiset_ensures;

    let mut dec: Vec<EntityId> = Vec::new();
    let mut inc: Vec<EntityId> = Vec::new();
    let nc = cur_ids.len();
    let nn = new_ids.len();
    let bound = if nc > nn {
        nc
    } else {
        nn
    };
    let mut i: usize = 0;
    proof {
        assert(dec@.to_multiset() =~= Multiset::<EntityId>::empty());
        assert(inc@.to_multiset() =~= Multiset::<EntityId>::empty());
    }
    while i < bound
        invariant
            nc == cur_ids.len(),
            nn == new_ids.len(),
            bound == spec_diff_len(cur_ids@, new_ids@),
            i <= bound,
            dec@.to_multiset() == spec_diff_dec(cur_ids@, new_ids@, i as int),
            inc@.to_multiset() == spec_diff_inc(cur_ids@, new_ids@, i as int),
        decreases bound - i,
    {
        broadcast use vstd::seq_lib::group_to_multiset_ensures;

        if i < nc && i < nn {
            if cur_ids[i] != new_ids[i] {
                dec.push(cur_ids[i]);
                inc.push(new_ids[i]);
            }
        } else if i < nn {
            inc.push(new_ids[i]);
        } else {
            dec.push(cur_ids[i]);
        }
        i += 1;
    }
    (dec, inc)
}

} // verus!
