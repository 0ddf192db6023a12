//! The store: all persisted state of the entity directory and the
//! mutations the caller surface offers.  Every mutation validates its
//! inputs and the caller's authority first; on an error the store is left
//! untouched and no event is emitted, but for the exceptions the crate
//! root names.

use vstd::prelude::*;
use crate::class::Class;
use crate::collections::IdSet;
use crate::collections::KvMap;
use crate::config::StoreConfig;
use crate::entity::Entity;
use crate::errors::Error;
use crate::events::Event;
use crate::permissions::Authority;
use crate::permissions::CuratorGroup;
use crate::permissions::ClassPermissions;
use crate::permissions::EntityController;
use crate::permissions::EntityCreationVoucher;
use crate::permissions::Origin;
use crate::vouchers::VoucherKey;
use crate::vouchers::VoucherMap;
use crate::AccountId;
use crate::ClassId;
use crate::CuratorGroupId;
use crate::CuratorId;
use crate::EntityId;
use crate::MaxNumber;
use crate::PropertyId;
use crate::SchemaId;
use crate::schema::Property;
use crate::schema::Schema;

verus! {

/// The persisted state: the four storage maps, the three id counters, the
/// injected configuration and authority, and the events emitted so far.
#[derive(Debug)]
pub struct Store {
    /// Host-injected limits and length constraints; fixed at construction.
    pub config: StoreConfig,
    /// The actor-authentication module's answers; fixed per call.
    pub authority: Authority,
    /// Curator groups by id.
    pub curator_group_by_id: KvMap<CuratorGroup>,
    /// Classes by id; classes are never removed.
    pub class_by_id: KvMap<Class>,
    /// Entities by id.
    pub entity_by_id: KvMap<Entity>,
    /// The next curator group id to issue.
    pub next_curator_group_id: CuratorGroupId,
    /// The next class id to issue.
    pub next_class_id: ClassId,
    /// The next entity id to issue.
    pub next_entity_id: EntityId,
    /// Creation vouchers by class and controller.
    pub entity_creation_vouchers: VoucherMap,
    /// Events emitted by successful mutations, oldest first.
    pub events: Vec<Event>,
}

impl Store {
    /// The storage maps have distinct keys.
    pub open spec fn wf_maps(&self) -> bool {
        &&& self.curator_group_by_id.wf()
        &&& self.class_by_id.wf()
        &&& self.entity_by_id.wf()
        &&& self.entity_creation_vouchers.wf()
    }

    /// Every stored value is well-formed.
    pub open spec fn wf_values(&self) -> bool {
        &&& forall|id: CuratorGroupId|
            self.curator_group_by_id@.dom().contains(id) ==> (
            #[trigger] self.curator_group_by_id@[id]).wf()
        &&& forall|id: ClassId|
            self.class_by_id@.dom().contains(id) ==> (#[trigger] self.class_by_id@[id]).wf()
        &&& forall|id: EntityId|
            self.entity_by_id@.dom().contains(id) ==> (#[trigger] self.entity_by_id@[id]).wf()
    }

    /// Issued ids are below the respective counters: no id is reassigned.
    pub open spec fn wf_ids(&self) -> bool {
        &&& forall|id: CuratorGroupId|
            #[trigger] self.curator_group_by_id@.dom().contains(id) ==> id
                < self.next_curator_group_id
        &&& forall|id: ClassId|
            #[trigger] self.class_by_id@.dom().contains(id) ==> id < self.next_class_id
        &&& forall|id: EntityId|
            #[trigger] self.entity_by_id@.dom().contains(id) ==> id < self.next_entity_id
    }

    /// Every voucher respects its class's per-controller limit and its own
    /// maximum, and belongs to an existing class.
    pub open spec fn wf_vouchers(&self) -> bool {
        forall|k: VoucherKey|
            #[trigger] self.entity_creation_vouchers@.dom().contains(k) ==> {
                let v = self.entity_creation_vouchers@[k];
                &&& v.entities_created <= v.maximum_entities_count
                &&& self.class_by_id@.dom().contains(k.class_id)
                &&& v.maximum_entities_count
                    <= self.class_by_id@[k.class_id].per_controller_entity_creation_limit
            }
    }

    /// Every entity instantiates an existing class.
    pub open spec fn wf_entity_classes(&self) -> bool {
        forall|id: EntityId|
            #[trigger] self.entity_by_id@.dom().contains(id) ==> self.class_by_id@.dom().contains(
                self.entity_by_id@[id].class_id,
            )
    }


    /// The entities instantiating a class.
    pub open spec fn spec_entities_of_class(&self, class_id: ClassId) -> Set<EntityId> {
        self.entity_by_id@.dom().filter(
            |id: EntityId| self.entity_by_id@[id].class_id == class_id,
        )
    }

    /// Every class's entity counter equals the number of its entities and
    /// stays within the class maximum.
    pub open spec fn wf_class_counts(&self) -> bool {
        forall|cid: ClassId|
            #[trigger] self.class_by_id@.dom().contains(cid) ==> {
                &&& self.class_by_id@[cid].current_number_of_entities
                    == self.spec_entities_of_class(cid).len()
                &&& self.class_by_id@[cid].current_number_of_entities <= self.class_by_id@[
                    cid
                ].maximum_entities_count
            }
    }

    /// Class counters survive any change that moves no entity into or out
    /// of a class: entity ids and their classes stay, and every class
    /// keeps its counter and maximum.
    pub proof fn lemma_counts_unchanged(s0: Store, s1: Store)
        requires
            s0.wf_class_counts(),
            s1.entity_by_id@.dom() == s0.entity_by_id@.dom(),
            forall|id: EntityId|
                #[trigger] s0.entity_by_id@.dom().contains(id) ==> s1.entity_by_id@[id].class_id
                    == s0.entity_by_id@[id].class_id,
            s1.class_by_id@.dom() == s0.class_by_id@.dom(),
            forall|cid: ClassId|
                #[trigger] s1.class_by_id@.dom().contains(cid) ==> s1.class_by_id@[
                    cid
                ].current_number_of_entities == s0.class_by_id@[cid].current_number_of_entities
                    && s1.class_by_id@[cid].maximum_entities_count == s0.class_by_id@[
                    cid
                ].maximum_entities_count,
        ensures
            s1.wf_class_counts(),
    {
        assert forall|cid: ClassId| #[trigger] s1.class_by_id@.dom().contains(cid) implies {
            &&& s1.class_by_id@[cid].current_number_of_entities == s1.spec_entities_of_class(
                cid,
            ).len()
            &&& s1.class_by_id@[cid].current_number_of_entities <= s1.class_by_id@[
                cid
            ].maximum_entities_count
        } by {
            assert(s1.spec_entities_of_class(cid) =~= s0.spec_entities_of_class(cid));
        }
    }

    /// Class counters survive adding one fresh entity when its class's
    /// counter grows by one and every other class is untouched.
    pub proof fn lemma_counts_after_entity_insert(s0: Store, s1: Store, eid: EntityId, cid: ClassId)
        requires
            s0.wf_class_counts(),
            s0.entity_by_id@.dom().finite(),
            !s0.entity_by_id@.dom().contains(eid),
            s1.entity_by_id@.dom() == s0.entity_by_id@.dom().insert(eid),
            s1.entity_by_id@[eid].class_id == cid,
            forall|id: EntityId|
                #[trigger] s0.entity_by_id@.dom().contains(id) ==> s1.entity_by_id@[id]
                    == s0.entity_by_id@[id],
            s1.class_by_id@.dom() == s0.class_by_id@.dom(),
            s0.class_by_id@.dom().contains(cid),
            s0.class_by_id@[cid].current_number_of_entities < s0.class_by_id@[
                cid
            ].maximum_entities_count,
            s1.class_by_id@[cid].current_number_of_entities == s0.class_by_id@[
                cid
            ].current_number_of_entities + 1,
            s1.class_by_id@[cid].maximum_entities_count == s0.class_by_id@[
                cid
            ].maximum_entities_count,
            forall|c: ClassId|
                c != cid && #[trigger] s0.class_by_id@.dom().contains(c) ==> s1.class_by_id@[c]
                    == s0.class_by_id@[c],
        ensures
            s1.wf_class_counts(),
    {
        assert forall|c: ClassId| #[trigger] s1.class_by_id@.dom().contains(c) implies {
            &&& s1.class_by_id@[c].current_number_of_entities == s1.spec_entities_of_class(c).len()
            &&& s1.class_by_id@[c].current_number_of_entities <= s1.class_by_id@[
                c
            ].maximum_entities_count
        } by {
            if c == cid {
                assert(s1.spec_entities_of_class(c) =~= s0.spec_entities_of_class(c).insert(eid));
                s0.entity_by_id@.dom().lemma_len_filter(
                    |id: EntityId| s0.entity_by_id@[id].class_id == c,
                );
                assert(!s0.spec_entities_of_class(c).contains(eid));
                vstd::set::axiom_set_insert_len(s0.spec_entities_of_class(c), eid);
            } else {
                assert(s1.spec_entities_of_class(c) =~= s0.spec_entities_of_class(c));
            }
        }
    }

    /// Class counters survive removing one entity when its class's counter
    /// shrinks by one and every other class is untouched.
    pub proof fn lemma_counts_after_entity_remove(s0: Store, s1: Store, eid: EntityId, cid: ClassId)
        requires
            s0.wf_class_counts(),
            s0.entity_by_id@.dom().finite(),
            s0.entity_by_id@.dom().contains(eid),
            s0.entity_by_id@[eid].class_id == cid,
            s1.entity_by_id@ == s0.entity_by_id@.remove(eid),
            s1.class_by_id@.dom() == s0.class_by_id@.dom(),
            s0.class_by_id@.dom().contains(cid),
            s1.class_by_id@[cid].current_number_of_entities == s0.class_by_id@[
                cid
            ].current_number_of_entities - 1,
            s1.class_by_id@[cid].maximum_entities_count == s0.class_by_id@[
                cid
            ].maximum_entities_count,
            forall|c: ClassId|
                c != cid && #[trigger] s0.class_by_id@.dom().contains(c) ==> s1.class_by_id@[c]
                    == s0.class_by_id@[c],
        ensures
            s1.wf_class_counts(),
    {
        assert forall|c: ClassId| #[trigger] s1.class_by_id@.dom().contains(c) implies {
            &&& s1.class_by_id@[c].current_number_of_entities == s1.spec_entities_of_class(c).len()
            &&& s1.class_by_id@[c].current_number_of_entities <= s1.class_by_id@[
                c
            ].maximum_entities_count
        } by {
            if c == cid {
                assert(s1.spec_entities_of_class(c) =~= s0.spec_entities_of_class(c).remove(eid));
                s0.entity_by_id@.dom().lemma_len_filter(
                    |id: EntityId| s0.entity_by_id@[id].class_id == c,
                );
                assert(s0.spec_entities_of_class(c).contains(eid));
                vstd::set::axiom_set_remove_len(s0.spec_entities_of_class(c), eid);
            } else {
                assert(s1.spec_entities_of_class(c) =~= s0.spec_entities_of_class(c));
            }
        }
    }

    /// Class counters survive registering a fresh class without entities.
    pub proof fn lemma_counts_after_class_create(s0: Store, s1: Store, cid: ClassId)
        requires
            s0.wf_class_counts(),
            s0.wf_entity_classes(),
            !s0.class_by_id@.dom().contains(cid),
            s1.entity_by_id == s0.entity_by_id,
            s1.class_by_id@.dom() == s0.class_by_id@.dom().insert(cid),
            s1.class_by_id@[cid].current_number_of_entities == 0,
            forall|c: ClassId|
                c != cid && #[trigger] s0.class_by_id@.dom().contains(c) ==> s1.class_by_id@[c]
                    == s0.class_by_id@[c],
        ensures
            s1.wf_class_counts(),
    {
        assert forall|c: ClassId| #[trigger] s1.class_by_id@.dom().contains(c) implies {
            &&& s1.class_by_id@[c].current_number_of_entities == s1.spec_entities_of_class(c).len()
            &&& s1.class_by_id@[c].current_number_of_entities <= s1.class_by_id@[
                c
            ].maximum_entities_count
        } by {
            if c == cid {
                assert(s1.spec_entities_of_class(c) =~= Set::<EntityId>::empty());
            } else {
                assert(s1.spec_entities_of_class(c) =~= s0.spec_entities_of_class(c));
            }
        }
    }

    /// The store's invariant, established by `new` and preserved by every
    /// mutation.
    pub open spec fn wf(&self) -> bool {
        &&& self.wf_maps()
        &&& self.wf_values()
        &&& self.wf_ids()
        &&& self.wf_vouchers()
        &&& self.wf_entity_classes()
        &&& self.wf_class_counts()
    }

    /// An empty store under the given configuration and authority.
    pub fn new(config: StoreConfig, authority: Authority) -> (r: Store)
        ensures
            r.wf(),
            r.config == config,
            r.authority == authority,
            r.curator_group_by_id@ == Map::<CuratorGroupId, CuratorGroup>::empty(),
            r.class_by_id@ == Map::<ClassId, Class>::empty(),
            r.entity_by_id@ == Map::<EntityId, Entity>::empty(),
            r.next_curator_group_id == 0,
            r.next_class_id == 0,
            r.next_entity_id == 0,
            r.entity_creation_vouchers@ == Map::<
                VoucherKey,
                crate::permissions::EntityCreationVoucher,
            >::empty(),
            r.events@ == Seq::<Event>::empty(),
    {
        Store {
            config,
            authority,
            curator_group_by_id: KvMap::new(),
            class_by_id: KvMap::new(),
            entity_by_id: KvMap::new(),
            next_curator_group_id: 0,
            next_class_id: 0,
            next_entity_id: 0,
            entity_creation_vouchers: VoucherMap::new(),
            events: Vec::new(),
        }
    }

    /// The origin is signed by the lead's account.
    pub open spec fn spec_is_lead_origin(&self, origin: Origin) -> bool {
        match origin.spec_signed() {
            Some(account) => self.authority.spec_is_lead(account),
            None => false,
        }
    }

    /// Rejects any origin but the lead's signed account.
    pub fn ensure_is_lead(&self, origin: Origin) -> (r: Result<AccountId, Error>)
        ensures
            self.spec_is_lead_origin(origin) ==> r == Result::<AccountId, Error>::Ok(
                origin.spec_signed().unwrap(),
            ),
            !self.spec_is_lead_origin(origin) ==> r == Result::<AccountId, Error>::Err(
                Error::AccessDenied,
            ),
    {
        let account = origin.ensure_signed()?;
        if self.authority.is_lead(account) {
            Ok(account)
        } else {
            Err(Error::AccessDenied)
        }
    }

    /// The `CuratorGroup` under the given id exists.
    pub fn ensure_curator_group_under_given_id_exists(
        &self,
        curator_group_id: CuratorGroupId,
    ) -> (r: Result<(), Error>)
        requires
            self.wf(),
        ensures
            r == if self.curator_group_by_id@.dom().contains(curator_group_id) {
                Result::<(), Error>::Ok(())
            } else {
                Result::<(), Error>::Err(Error::CuratorGroupNotFound)
            },
    {
        if self.curator_group_by_id.contains_key(curator_group_id) {
            Ok(())
        } else {
            Err(Error::CuratorGroupNotFound)
        }
    }

    /// The `CuratorGroup` under the given id exists; hands it back.
    pub fn ensure_curator_group_exists(&self, curator_group_id: CuratorGroupId) -> (r: Result<
        &CuratorGroup,
        Error,
    >)
        requires
            self.wf(),
        ensures
            match r {
                Ok(group) => self.curator_group_by_id@.dom().contains(curator_group_id) && *group
                    == self.curator_group_by_id@[curator_group_id],
                Err(e) => !self.curator_group_by_id@.dom().contains(curator_group_id) && e
                    == Error::CuratorGroupNotFound,
            },
    {
        match self.curator_group_by_id.get(curator_group_id) {
            Some(group) => Ok(group),
            None => Err(Error::CuratorGroupNotFound),
        }
    }

    /// The `Class` under the given id exists; hands it back.
    pub fn ensure_known_class_id(&self, class_id: ClassId) -> (r: Result<&Class, Error>)
        requires
            self.wf(),
        ensures
            match r {
                Ok(class) => self.class_by_id@.dom().contains(class_id) && *class
                    == self.class_by_id@[class_id],
                Err(e) => !self.class_by_id@.dom().contains(class_id) && e
                    == Error::ClassNotFound,
            },
    {
        match self.class_by_id.get(class_id) {
            Some(class) => Ok(class),
            None => Err(Error::ClassNotFound),
        }
    }

    /// The `Entity` under the given id exists; hands it back.
    pub fn ensure_known_entity_id(&self, entity_id: EntityId) -> (r: Result<&Entity, Error>)
        requires
            self.wf(),
        ensures
            match r {
                Ok(entity) => self.entity_by_id@.dom().contains(entity_id) && *entity
                    == self.entity_by_id@[entity_id],
                Err(e) => !self.entity_by_id@.dom().contains(entity_id) && e
                    == Error::EntityNotFound,
            },
    {
        match self.entity_by_id.get(entity_id) {
            Some(entity) => Ok(entity),
            None => Err(Error::EntityNotFound),
        }
    }

    /// The maintainers set has room for one more group.
    pub fn ensure_maintainers_limit_not_reached(&self, curator_groups: &IdSet) -> (r: Result<
        (),
        Error,
    >)
        requires
            curator_groups.wf(),
        ensures
            r == if curator_groups@.len() < self.config.max_number_of_maintainers_per_class {
                Result::<(), Error>::Ok(())
            } else {
                Result::<(), Error>::Err(Error::MaintainersLimitReached)
            },
    {
        if (curator_groups.len() as u64) < self.config.max_number_of_maintainers_per_class as u64 {
            Ok(())
        } else {
            Err(Error::MaintainersLimitReached)
        }
    }

    /// All groups of the set exist.
    pub open spec fn spec_all_groups_exist(&self, curator_groups: &IdSet) -> bool {
        forall|id: CuratorGroupId|
            curator_groups@.contains(id) ==> self.curator_group_by_id@.dom().contains(id)
    }

    /// Every curator group of the set exists; the error names none.
    pub fn ensure_curator_groups_exist(&self, curator_groups: &IdSet) -> (r: Result<(), Error>)
        requires
            self.wf(),
            curator_groups.wf(),
        ensures
            r == if self.spec_all_groups_exist(curator_groups) {
                Result::<(), Error>::Ok(())
            } else {
                Result::<(), Error>::Err(Error::CuratorGroupNotFound)
            },
    {
        let n = curator_groups.len();
        let mut i: usize = 0;
        while i < n
            invariant
                self.wf(),
                curator_groups.wf(),
                n == curator_groups.seq().len(),
                i <= n,
                forall|j: int|
                    0 <= j < i ==> self.curator_group_by_id@.dom().contains(
                        #[trigger] curator_groups.seq()[j],
                    ),
            decreases n - i,
        {
            let id = curator_groups.elem_at(i);
            if !self.curator_group_by_id.contains_key(id) {
                proof {
                    assert(curator_groups@.contains(id));
                }
                return Err(Error::CuratorGroupNotFound);
            }
            i += 1;
        }
        proof {
            curator_groups.lemma_view_is_seq();
            assert forall|id: CuratorGroupId| curator_groups@.contains(
                id,
            ) implies self.curator_group_by_id@.dom().contains(id) by {
                assert(curator_groups.seq().to_set().contains(id));
                assert(curator_groups.seq().contains(id));
                let j = choose|j: int|
                    0 <= j < curator_groups.seq().len() && curator_groups.seq()[j] == id;
                assert(curator_groups.seq()[j] == id);
            }
        }
        Ok(())
    }

    /// Maintainers are valid class permissions: within the limit and all
    /// existing.
    pub fn ensure_class_permissions_are_valid(
        &self,
        class_permissions: &crate::permissions::ClassPermissions,
    ) -> (r: Result<(), Error>)
        requires
            self.wf(),
            class_permissions.wf(),
        ensures
            r == if class_permissions.maintainers@.len()
                >= self.config.max_number_of_maintainers_per_class {
                Result::<(), Error>::Err(Error::MaintainersLimitReached)
            } else if !self.spec_all_groups_exist(&class_permissions.maintainers) {
                Result::<(), Error>::Err(Error::CuratorGroupNotFound)
            } else {
                Result::<(), Error>::Ok(())
            },
    {
        self.ensure_maintainers_limit_not_reached(&class_permissions.maintainers)?;
        self.ensure_curator_groups_exist(&class_permissions.maintainers)?;
        Ok(())
    }

    // -----------------------------------------------------------------------
    // Curator group management (lead only)
    // -----------------------------------------------------------------------

    /// The exact outcome of `add_curator_group`.
    pub open spec fn spec_add_curator_group(&self, origin: Origin) -> Result<(), Error> {
        if !self.spec_is_lead_origin(origin) {
            Err(Error::AccessDenied)
        } else if self.next_curator_group_id == CuratorGroupId::MAX {
            Err(Error::InternalInvariantBroken)
        } else {
            Ok(())
        }
    }

    /// Adds a new, initially inactive curator group under the next id.
    pub fn add_curator_group(&mut self, origin: Origin) -> (r: Result<(), Error>)
        requires
            old(self).wf(),
        ensures
            final(self).wf(),
            r == old(self).spec_add_curator_group(origin),
            r is Err ==> *final(self) == *old(self),
            r is Ok ==> {
                let gid = old(self).next_curator_group_id;
                &&& final(self).curator_group_by_id@.dom() =~= old(self).curator_group_by_id@.dom().insert(gid)
                &&& final(self).curator_group_by_id@[gid].curators@ == Set::<CuratorId>::empty()
                &&& !final(self).curator_group_by_id@[gid].active
                &&& final(self).curator_group_by_id@[gid].number_of_classes_maintained == 0
                &&& forall|id: CuratorGroupId|
                    id != gid && old(self).curator_group_by_id@.dom().contains(id) ==> final(self).curator_group_by_id@[id] == old(self).curator_group_by_id@[id]
                &&& final(self).next_curator_group_id == gid + 1
                &&& final(self).events@ == old(self).events@.push(Event::CuratorGroupAdded(gid))
                &&& final(self).class_by_id == old(self).class_by_id
                &&& final(self).entity_by_id == old(self).entity_by_id
                &&& final(self).entity_creation_vouchers == old(self).entity_creation_vouchers
                &&& final(self).next_class_id == old(self).next_class_id
                &&& final(self).next_entity_id == old(self).next_entity_id
                &&& final(self).config == old(self).config
                &&& final(self).authority == old(self).authority
            },
    {
        if let Err(e) = self.ensure_is_lead(origin) {
            return Err(e);
        }
        if self.next_curator_group_id == CuratorGroupId::MAX {
            return Err(Error::InternalInvariantBroken);
        }
        let curator_group_id = self.next_curator_group_id;
        self.curator_group_by_id.insert(curator_group_id, CuratorGroup::default());
        self.next_curator_group_id = self.next_curator_group_id + 1;
        self.events.push(Event::CuratorGroupAdded(curator_group_id));
        Ok(())
    }

    /// The exact outcome of `remove_curator_group`.
    pub open spec fn spec_remove_curator_group(
        &self,
        origin: Origin,
        curator_group_id: CuratorGroupId,
    ) -> Result<(), Error> {
        if !self.spec_is_lead_origin(origin) {
            Err(Error::AccessDenied)
        } else if !self.curator_group_by_id@.dom().contains(curator_group_id) {
            Err(Error::CuratorGroupNotFound)
        } else if self.curator_group_by_id@[curator_group_id].number_of_classes_maintained != 0 {
            Err(Error::CuratorGroupMaintainsClass)
        } else {
            Ok(())
        }
    }

    /// Removes the curator group under the given id; only a group that
    /// maintains no class can leave.
    pub fn remove_curator_group(&mut self, origin: Origin, curator_group_id: CuratorGroupId) -> (r:
        Result<(), Error>)
        requires
            old(self).wf(),
        ensures
            final(self).wf(),
            r == old(self).spec_remove_curator_group(origin, curator_group_id),
            r is Err ==> *final(self) == *old(self),
            r is Ok ==> {
                &&& final(self).curator_group_by_id@ == old(self).curator_group_by_id@.remove(
                    curator_group_id,
                )
                &&& final(self).events@ == old(self).events@.push(
                    Event::CuratorGroupRemoved(curator_group_id),
                )
                &&& final(self).class_by_id == old(self).class_by_id
                &&& final(self).entity_by_id == old(self).entity_by_id
                &&& final(self).entity_creation_vouchers == old(self).entity_creation_vouchers
                &&& final(self).next_curator_group_id == old(self).next_curator_group_id
                &&& final(self).next_class_id == old(self).next_class_id
                &&& final(self).next_entity_id == old(self).next_entity_id
                &&& final(self).config == old(self).config
                &&& final(self).authority == old(self).authority
            },
    {
        if let Err(e) = self.ensure_is_lead(origin) {
            return Err(e);
        }
        let group = match self.ensure_curator_group_exists(curator_group_id) {
            Ok(group) => group,
            Err(e) => {
                return Err(e);
            },
        };
        if let Err(e) = group.ensure_curator_is_not_a_maintainer() {
            return Err(e);
        }
        self.curator_group_by_id.remove_key(curator_group_id);
        self.events.push(Event::CuratorGroupRemoved(curator_group_id));
        Ok(())
    }

    /// The exact outcome of `set_curator_group_status`.
    pub open spec fn spec_set_curator_group_status(
        &self,
        origin: Origin,
        curator_group_id: CuratorGroupId,
    ) -> Result<(), Error> {
        if !self.spec_is_lead_origin(origin) {
            Err(Error::AccessDenied)
        } else if !self.curator_group_by_id@.dom().contains(curator_group_id) {
            Err(Error::CuratorGroupNotFound)
        } else {
            Ok(())
        }
    }

    /// Sets the `active` flag of the group under the given id.
    pub fn set_curator_group_status(
        &mut self,
        origin: Origin,
        curator_group_id: CuratorGroupId,
        is_active: bool,
    ) -> (r: Result<(), Error>)
        requires
            old(self).wf(),
        ensures
            final(self).wf(),
            r == old(self).spec_set_curator_group_status(origin, curator_group_id),
            r is Err ==> *final(self) == *old(self),
            r is Ok ==> {
                let g0 = old(self).curator_group_by_id@[curator_group_id];
                &&& final(self).curator_group_by_id@ == old(self).curator_group_by_id@.insert(
                    curator_group_id,
                    (CuratorGroup { active: is_active, ..g0 }),
                )
                &&& final(self).events@ == old(self).events@.push(
                    Event::CuratorGroupStatusSet(is_active),
                )
                &&& final(self).class_by_id == old(self).class_by_id
                &&& final(self).entity_by_id == old(self).entity_by_id
                &&& final(self).entity_creation_vouchers == old(self).entity_creation_vouchers
                &&& final(self).next_curator_group_id == old(self).next_curator_group_id
                &&& final(self).next_class_id == old(self).next_class_id
                &&& final(self).next_entity_id == old(self).next_entity_id
                &&& final(self).config == old(self).config
                &&& final(self).authority == old(self).authority
            },
    {
        if let Err(e) = self.ensure_is_lead(origin) {
            return Err(e);
        }
        if let Err(e) = self.ensure_curator_group_under_given_id_exists(curator_group_id) {
            return Err(e);
        }
        let mut group = match self.curator_group_by_id.remove_key(curator_group_id) {
            Some(group) => group,
            None => {
                return Err(Error::CuratorGroupNotFound);
            },
        };
        group.set_status(is_active);
        proof {
            assert(group =~= (CuratorGroup {
                active: is_active,
                ..old(self).curator_group_by_id@[curator_group_id]
            }));
        }
        self.curator_group_by_id.insert(curator_group_id, group);
        self.events.push(Event::CuratorGroupStatusSet(is_active));
        proof {
            assert(self.curator_group_by_id@ =~= old(self).curator_group_by_id@.insert(
                curator_group_id,
                (CuratorGroup {
                    active: is_active,
                    ..old(self).curator_group_by_id@[curator_group_id]
                }),
            ));
        }
        Ok(())
    }

    /// The exact outcome of `add_curator_to_group`.
    pub open spec fn spec_add_curator_to_group(
        &self,
        origin: Origin,
        curator_group_id: CuratorGroupId,
    ) -> Result<(), Error> {
        if !self.spec_is_lead_origin(origin) {
            Err(Error::AccessDenied)
        } else if !self.curator_group_by_id@.dom().contains(curator_group_id) {
            Err(Error::CuratorGroupNotFound)
        } else if self.curator_group_by_id@[curator_group_id].curators@.len()
            >= self.config.max_number_of_curators_per_group {
            Err(Error::CuratorsLimitReached)
        } else {
            Ok(())
        }
    }

    /// Adds a curator to the group under the given id.
    pub fn add_curator_to_group(
        &mut self,
        origin: Origin,
        curator_group_id: CuratorGroupId,
        curator_id: CuratorId,
    ) -> (r: Result<(), Error>)
        requires
            old(self).wf(),
        ensures
            final(self).wf(),
            r == old(self).spec_add_curator_to_group(origin, curator_group_id),
            r is Err ==> *final(self) == *old(self),
            r is Ok ==> {
                let g0 = old(self).curator_group_by_id@[curator_group_id];
                &&& final(self).curator_group_by_id@.dom() == old(self).curator_group_by_id@.dom()
                &&& final(self).curator_group_by_id@[curator_group_id].curators@ == g0.curators@.insert(
                    curator_id,
                )
                &&& final(self).curator_group_by_id@[curator_group_id].active == g0.active
                &&& final(self).curator_group_by_id@[curator_group_id].number_of_classes_maintained
                    == g0.number_of_classes_maintained
                &&& forall|id: CuratorGroupId|
                    id != curator_group_id && old(self).curator_group_by_id@.dom().contains(id)
                        ==> final(self).curator_group_by_id@[id] == old(self).curator_group_by_id@[id]
                &&& final(self).events@ == old(self).events@.push(
                    Event::CuratorAdded(curator_group_id, curator_id),
                )
                &&& final(self).class_by_id == old(self).class_by_id
                &&& final(self).entity_by_id == old(self).entity_by_id
                &&& final(self).entity_creation_vouchers == old(self).entity_creation_vouchers
                &&& final(self).next_curator_group_id == old(self).next_curator_group_id
                &&& final(self).next_class_id == old(self).next_class_id
                &&& final(self).next_entity_id == old(self).next_entity_id
                &&& final(self).config == old(self).config
                &&& final(self).authority == old(self).authority
            },
    {
        if let Err(e) = self.ensure_is_lead(origin) {
            return Err(e);
        }
        let limit = self.config.max_number_of_curators_per_group;
        {
            let group = match self.ensure_curator_group_exists(curator_group_id) {
                Ok(group) => group,
                Err(e) => {
                    return Err(e);
                },
            };
            if let Err(e) = group.ensure_max_number_of_curators_limit_not_reached(limit) {
                return Err(e);
            }
        }
        let mut group = match self.curator_group_by_id.remove_key(curator_group_id) {
            Some(group) => group,
            None => {
                return Err(Error::CuratorGroupNotFound);
            },
        };
        group.curators.insert(curator_id);
        self.curator_group_by_id.insert(curator_group_id, group);
        self.events.push(Event::CuratorAdded(curator_group_id, curator_id));
        proof {
            assert(self.curator_group_by_id@.dom() =~= old(self).curator_group_by_id@.dom());
        }
        Ok(())
    }

    /// The exact outcome of `remove_curator_from_group`.
    pub open spec fn spec_remove_curator_from_group(
        &self,
        origin: Origin,
        curator_group_id: CuratorGroupId,
    ) -> Result<(), Error> {
        if !self.spec_is_lead_origin(origin) {
            Err(Error::AccessDenied)
        } else if !self.curator_group_by_id@.dom().contains(curator_group_id) {
            Err(Error::CuratorGroupNotFound)
        } else {
            Ok(())
        }
    }

    /// Removes a curator from the group under the given id.
    pub fn remove_curator_from_group(
        &mut self,
        origin: Origin,
        curator_group_id: CuratorGroupId,
        curator_id: CuratorId,
    ) -> (r: Result<(), Error>)
        requires
            old(self).wf(),
        ensures
            final(self).wf(),
            r == old(self).spec_remove_curator_from_group(origin, curator_group_id),
            r is Err ==> *final(self) == *old(self),
            r is Ok ==> {
                let g0 = old(self).curator_group_by_id@[curator_group_id];
                &&& final(self).curator_group_by_id@.dom() == old(self).curator_group_by_id@.dom()
                &&& final(self).curator_group_by_id@[curator_group_id].curators@ == g0.curators@.remove(
                    curator_id,
                )
                &&& final(self).curator_group_by_id@[curator_group_id].active == g0.active
                &&& final(self).curator_group_by_id@[curator_group_id].number_of_classes_maintained
                    == g0.number_of_classes_maintained
                &&& forall|id: CuratorGroupId|
                    id != curator_group_id && old(self).curator_group_by_id@.dom().contains(id)
                        ==> final(self).curator_group_by_id@[id] == old(self).curator_group_by_id@[id]
                &&& final(self).events@ == old(self).events@.push(
                    Event::CuratorRemoved(curator_group_id, curator_id),
                )
                &&& final(self).class_by_id == old(self).class_by_id
                &&& final(self).entity_by_id == old(self).entity_by_id
                &&& final(self).entity_creation_vouchers == old(self).entity_creation_vouchers
                &&& final(self).next_curator_group_id == old(self).next_curator_group_id
                &&& final(self).next_class_id == old(self).next_class_id
                &&& final(self).next_entity_id == old(self).next_entity_id
                &&& final(self).config == old(self).config
                &&& final(self).authority == old(self).authority
            },
    {
        if let Err(e) = self.ensure_is_lead(origin) {
            return Err(e);
        }
        if let Err(e) = self.ensure_curator_group_under_given_id_exists(curator_group_id) {
            return Err(e);
        }
        let mut group = match self.curator_group_by_id.remove_key(curator_group_id) {
            Some(group) => group,
            None => {
                return Err(Error::CuratorGroupNotFound);
            },
        };
        group.curators.remove(curator_id);
        self.curator_group_by_id.insert(curator_group_id, group);
        self.events.push(Event::CuratorRemoved(curator_group_id, curator_id));
        proof {
            assert(self.curator_group_by_id@.dom() =~= old(self).curator_group_by_id@.dom());
        }
        Ok(())
    }

    // -----------------------------------------------------------------------
    // Class maintainers (lead only)
    // -----------------------------------------------------------------------

    /// The exact outcome of `add_maintainer_to_class`.
    pub open spec fn spec_add_maintainer_to_class(
        &self,
        origin: Origin,
        class_id: ClassId,
        curator_group_id: CuratorGroupId,
    ) -> Result<(), Error> {
        if !self.spec_is_lead_origin(origin) {
            Err(Error::AccessDenied)
        } else if !self.class_by_id@.dom().contains(class_id) {
            Err(Error::ClassNotFound)
        } else if !self.curator_group_by_id@.dom().contains(curator_group_id) {
            Err(Error::CuratorGroupNotFound)
        } else if self.class_by_id@[class_id].class_permissions.maintainers@.len()
            >= self.config.max_number_of_maintainers_per_class {
            Err(Error::MaintainersLimitReached)
        } else if self.class_by_id@[class_id].class_permissions.maintainers@.contains(
            curator_group_id,
        ) {
            Err(Error::MaintainerAlreadyExists)
        } else if self.curator_group_by_id@[curator_group_id].number_of_classes_maintained
            == MaxNumber::MAX {
            Err(Error::InternalInvariantBroken)
        } else {
            Ok(())
        }
    }

    /// Adds the curator group as a maintainer of the class, and counts the
    /// class against the group.
    pub fn add_maintainer_to_class(
        &mut self,
        origin: Origin,
        class_id: ClassId,
        curator_group_id: CuratorGroupId,
    ) -> (r: Result<(), Error>)
        requires
            old(self).wf(),
        ensures
            final(self).wf(),
            r == old(self).spec_add_maintainer_to_class(origin, class_id, curator_group_id),
            r is Err ==> *final(self) == *old(self),
            r is Ok ==> {
                let c0 = old(self).class_by_id@[class_id];
                let g0 = old(self).curator_group_by_id@[curator_group_id];
                &&& final(self).class_by_id@.dom() == old(self).class_by_id@.dom()
                &&& final(self).class_by_id@[class_id].class_permissions.maintainers@
                    == c0.class_permissions.maintainers@.insert(curator_group_id)
                &&& final(self).class_by_id@[class_id].class_permissions.any_member
                    == c0.class_permissions.any_member
                &&& final(self).class_by_id@[class_id].class_permissions.entity_creation_blocked
                    == c0.class_permissions.entity_creation_blocked
                &&& final(self).class_by_id@[class_id].class_permissions.all_entity_property_values_locked
                    == c0.class_permissions.all_entity_property_values_locked
                &&& final(self).class_by_id@[class_id].properties == c0.properties
                &&& final(self).class_by_id@[class_id].schemas == c0.schemas
                &&& final(self).class_by_id@[class_id].current_number_of_entities
                    == c0.current_number_of_entities
                &&& final(self).class_by_id@[class_id].maximum_entities_count
                    == c0.maximum_entities_count
                &&& final(self).class_by_id@[class_id].per_controller_entity_creation_limit
                    == c0.per_controller_entity_creation_limit
                &&& forall|id: ClassId|
                    id != class_id && old(self).class_by_id@.dom().contains(id) ==> final(self).class_by_id@[id] == old(self).class_by_id@[id]
                &&& final(self).curator_group_by_id@.dom() == old(self).curator_group_by_id@.dom()
                &&& final(self).curator_group_by_id@[curator_group_id] == (CuratorGroup {
                    number_of_classes_maintained: (g0.number_of_classes_maintained + 1) as MaxNumber,
                    ..g0
                })
                &&& forall|id: CuratorGroupId|
                    id != curator_group_id && old(self).curator_group_by_id@.dom().contains(id)
                        ==> final(self).curator_group_by_id@[id] == old(self).curator_group_by_id@[id]
                &&& final(self).events@ == old(self).events@.push(
                    Event::MaintainerAdded(class_id, curator_group_id),
                )
                &&& final(self).entity_by_id == old(self).entity_by_id
                &&& final(self).entity_creation_vouchers == old(self).entity_creation_vouchers
                &&& final(self).next_curator_group_id == old(self).next_curator_group_id
                &&& final(self).next_class_id == old(self).next_class_id
                &&& final(self).next_entity_id == old(self).next_entity_id
                &&& final(self).config == old(self).config
                &&& final(self).authority == old(self).authority
            },
    {
        if let Err(e) = self.ensure_is_lead(origin) {
            return Err(e);
        }
        {
            let class = match self.ensure_known_class_id(class_id) {
                Ok(class) => class,
                Err(e) => {
                    return Err(e);
                },
            };
            if let Err(e) = self.ensure_curator_group_under_given_id_exists(curator_group_id) {
                return Err(e);
            }
            let class_permissions = class.get_permissions();
            if let Err(e) = self.ensure_maintainers_limit_not_reached(
                class_permissions.get_maintainers(),
            ) {
                return Err(e);
            }
            if let Err(e) = class_permissions.ensure_maintainer_does_not_exist(curator_group_id) {
                return Err(e);
            }
        }
        {
            let group = match self.curator_group_by_id.get(curator_group_id) {
                Some(group) => group,
                None => {
                    return Err(Error::CuratorGroupNotFound);
                },
            };
            if group.number_of_classes_maintained == MaxNumber::MAX {
                return Err(Error::InternalInvariantBroken);
            }
        }
        let mut class = match self.class_by_id.remove_key(class_id) {
            Some(class) => class,
            None => {
                return Err(Error::ClassNotFound);
            },
        };
        class.class_permissions.maintainers.insert(curator_group_id);
        self.class_by_id.insert(class_id, class);
        let mut group = match self.curator_group_by_id.remove_key(curator_group_id) {
            Some(group) => group,
            None => {
                return Err(Error::CuratorGroupNotFound);
            },
        };
        group.number_of_classes_maintained = group.number_of_classes_maintained + 1;
        self.curator_group_by_id.insert(curator_group_id, group);
        self.events.push(Event::MaintainerAdded(class_id, curator_group_id));
        proof {
            assert(self.class_by_id@.dom() =~= old(self).class_by_id@.dom());
            assert(self.curator_group_by_id@.dom() =~= old(self).curator_group_by_id@.dom());
            assert(self.curator_group_by_id@[curator_group_id] =~= (CuratorGroup {
                number_of_classes_maintained: (old(self).curator_group_by_id@[curator_group_id].number_of_classes_maintained + 1) as MaxNumber,
                ..old(self).curator_group_by_id@[curator_group_id]
            }));
        }
        Ok(())
    }

    /// The exact outcome of `remove_maintainer_from_class`.
    pub open spec fn spec_remove_maintainer_from_class(
        &self,
        origin: Origin,
        class_id: ClassId,
        curator_group_id: CuratorGroupId,
    ) -> Result<(), Error> {
        if !self.spec_is_lead_origin(origin) {
            Err(Error::AccessDenied)
        } else if !self.class_by_id@.dom().contains(class_id) {
            Err(Error::ClassNotFound)
        } else if !self.class_by_id@[class_id].class_permissions.maintainers@.contains(
            curator_group_id,
        ) {
            Err(Error::MaintainerDoesNotExist)
        } else if !self.curator_group_by_id@.dom().contains(curator_group_id)
            || self.curator_group_by_id@[curator_group_id].number_of_classes_maintained == 0 {
            Err(Error::InternalInvariantBroken)
        } else {
            Ok(())
        }
    }

    /// Removes the curator group from the class's maintainers, and uncounts
    /// the class from the group.
    pub fn remove_maintainer_from_class(
        &mut self,
        origin: Origin,
        class_id: ClassId,
        curator_group_id: CuratorGroupId,
    ) -> (r: Result<(), Error>)
        requires
            old(self).wf(),
        ensures
            final(self).wf(),
            r == old(self).spec_remove_maintainer_from_class(origin, class_id, curator_group_id),
            r is Err ==> *final(self) == *old(self),
            r is Ok ==> {
                let c0 = old(self).class_by_id@[class_id];
                let g0 = old(self).curator_group_by_id@[curator_group_id];
                &&& final(self).class_by_id@.dom() == old(self).class_by_id@.dom()
                &&& final(self).class_by_id@[class_id].class_permissions.maintainers@
                    == c0.class_permissions.maintainers@.remove(curator_group_id)
                &&& final(self).class_by_id@[class_id].properties == c0.properties
                &&& final(self).class_by_id@[class_id].schemas == c0.schemas
                &&& final(self).class_by_id@[class_id].current_number_of_entities
                    == c0.current_number_of_entities
                &&& forall|id: ClassId|
                    id != class_id && old(self).class_by_id@.dom().contains(id) ==> final(self).class_by_id@[id] == old(self).class_by_id@[id]
                &&& final(self).curator_group_by_id@.dom() == old(self).curator_group_by_id@.dom()
                &&& final(self).curator_group_by_id@[curator_group_id] == (CuratorGroup {
                    number_of_classes_maintained: (g0.number_of_classes_maintained - 1) as MaxNumber,
                    ..g0
                })
                &&& forall|id: CuratorGroupId|
                    id != curator_group_id && old(self).curator_group_by_id@.dom().contains(id)
                        ==> final(self).curator_group_by_id@[id] == old(self).curator_group_by_id@[id]
                &&& final(self).events@ == old(self).events@.push(
                    Event::MaintainerRemoved(class_id, curator_group_id),
                )
                &&& final(self).entity_by_id == old(self).entity_by_id
                &&& final(self).entity_creation_vouchers == old(self).entity_creation_vouchers
                &&& final(self).next_curator_group_id == old(self).next_curator_group_id
                &&& final(self).next_class_id == old(self).next_class_id
                &&& final(self).next_entity_id == old(self).next_entity_id
                &&& final(self).config == old(self).config
                &&& final(self).authority == old(self).authority
            },
    {
        if let Err(e) = self.ensure_is_lead(origin) {
            return Err(e);
        }
        {
            let class = match self.ensure_known_class_id(class_id) {
                Ok(class) => class,
                Err(e) => {
                    return Err(e);
                },
            };
            if let Err(e) = class.get_permissions().ensure_maintainer_exists(curator_group_id) {
                return Err(e);
            }
            match self.curator_group_by_id.get(curator_group_id) {
                Some(group) => {
                    if group.number_of_classes_maintained == 0 {
                        return Err(Error::InternalInvariantBroken);
                    }
                },
                None => {
                    return Err(Error::InternalInvariantBroken);
                },
            }
        }
        let mut class = match self.class_by_id.remove_key(class_id) {
            Some(class) => class,
            None => {
                return Err(Error::ClassNotFound);
            },
        };
        class.class_permissions.maintainers.remove(curator_group_id);
        self.class_by_id.insert(class_id, class);
        let mut group = match self.curator_group_by_id.remove_key(curator_group_id) {
            Some(group) => group,
            None => {
                return Err(Error::InternalInvariantBroken);
            },
        };
        group.number_of_classes_maintained = group.number_of_classes_maintained - 1;
        self.curator_group_by_id.insert(curator_group_id, group);
        self.events.push(Event::MaintainerRemoved(class_id, curator_group_id));
        proof {
            assert(self.class_by_id@.dom() =~= old(self).class_by_id@.dom());
            assert(self.curator_group_by_id@.dom() =~= old(self).curator_group_by_id@.dom());
            assert(self.curator_group_by_id@[curator_group_id] =~= (CuratorGroup {
                number_of_classes_maintained: (old(self).curator_group_by_id@[curator_group_id].number_of_classes_maintained - 1) as MaxNumber,
                ..old(self).curator_group_by_id@[curator_group_id]
            }));
        }
        Ok(())
    }
    // -----------------------------------------------------------------------
    // Vouchers and classes (lead only)
    // -----------------------------------------------------------------------

    /// The voucher maximum stays within the class's per-controller limit.
    pub fn ensure_valid_number_of_class_entities_per_actor(
        &self,
        per_controller_entity_creation_limit: EntityId,
        maximum_entities_count: EntityId,
    ) -> (r: Result<(), Error>)
        ensures
            r == if maximum_entities_count <= per_controller_entity_creation_limit {
                Result::<(), Error>::Ok(())
            } else {
                Result::<(), Error>::Err(Error::VoucherMaxExceedsPerControllerLimit)
            },
    {
        if maximum_entities_count <= per_controller_entity_creation_limit {
            Ok(())
        } else {
            Err(Error::VoucherMaxExceedsPerControllerLimit)
        }
    }

    /// The exact outcome of `update_entity_creation_voucher`.
    pub open spec fn spec_update_entity_creation_voucher(
        &self,
        origin: Origin,
        class_id: ClassId,
        controller: EntityController,
        maximum_entities_count: EntityId,
    ) -> Result<(), Error> {
        let key = VoucherKey { class_id, controller };
        if !self.spec_is_lead_origin(origin) {
            Err(Error::AccessDenied)
        } else if !self.class_by_id@.dom().contains(class_id) {
            Err(Error::ClassNotFound)
        } else if self.entity_creation_vouchers@.dom().contains(key)
            && self.entity_creation_vouchers@[key].entities_created > maximum_entities_count {
            Err(Error::VoucherMaxBelowCreatedCount)
        } else if maximum_entities_count
            > self.class_by_id@[class_id].per_controller_entity_creation_limit {
            Err(Error::VoucherMaxExceedsPerControllerLimit)
        } else {
            Ok(())
        }
    }

    /// Raises (or creates) the voucher of `(class, controller)`, capped by
    /// the class's per-controller limit.
    pub fn update_entity_creation_voucher(
        &mut self,
        origin: Origin,
        class_id: ClassId,
        controller: EntityController,
        maximum_entities_count: EntityId,
    ) -> (r: Result<(), Error>)
        requires
            old(self).wf(),
        ensures
            final(self).wf(),
            r == old(self).spec_update_entity_creation_voucher(
                origin,
                class_id,
                controller,
                maximum_entities_count,
            ),
            r is Err ==> *final(self) == *old(self),
            r is Ok ==> {
                let key = VoucherKey { class_id, controller };
                let existed = old(self).entity_creation_vouchers@.dom().contains(key);
                let created = if existed {
                    old(self).entity_creation_vouchers@[key].entities_created
                } else {
                    0
                };
                let voucher = EntityCreationVoucher {
                    maximum_entities_count,
                    entities_created: created,
                };
                &&& final(self).entity_creation_vouchers@ == old(self).entity_creation_vouchers@.insert(key, voucher)
                &&& final(self).events@ == old(self).events@.push(
                    if existed {
                        Event::EntityCreationVoucherUpdated(controller, voucher)
                    } else {
                        Event::EntityCreationVoucherCreated(controller, voucher)
                    },
                )
                &&& final(self).class_by_id == old(self).class_by_id
                &&& final(self).entity_by_id == old(self).entity_by_id
                &&& final(self).curator_group_by_id == old(self).curator_group_by_id
                &&& final(self).next_curator_group_id == old(self).next_curator_group_id
                &&& final(self).next_class_id == old(self).next_class_id
                &&& final(self).next_entity_id == old(self).next_entity_id
                &&& final(self).config == old(self).config
                &&& final(self).authority == old(self).authority
            },
    {
        if let Err(e) = self.ensure_is_lead(origin) {
            return Err(e);
        }
        let per_controller_limit = match self.ensure_known_class_id(class_id) {
            Ok(class) => class.per_controller_entity_creation_limit,
            Err(e) => {
                return Err(e);
            },
        };
        let key = VoucherKey { class_id, controller };
        let voucher_exists = self.entity_creation_vouchers.contains_key(key);
        if voucher_exists {
            let voucher = match self.entity_creation_vouchers.get(key) {
                Some(voucher) => voucher,
                None => {
                    return Err(Error::InternalInvariantBroken);
                },
            };
            if let Err(e) = voucher.ensure_new_max_entities_count_is_valid(
                maximum_entities_count,
            ) {
                return Err(e);
            }
        }
        if let Err(e) = self.ensure_valid_number_of_class_entities_per_actor(
            per_controller_limit,
            maximum_entities_count,
        ) {
            return Err(e);
        }
        if voucher_exists {
            let mut voucher = match self.entity_creation_vouchers.get(key) {
                Some(voucher) => *voucher,
                None => {
                    return Err(Error::InternalInvariantBroken);
                },
            };
            voucher.set_maximum_entities_count(maximum_entities_count);
            self.entity_creation_vouchers.insert(key, voucher);
            self.events.push(Event::EntityCreationVoucherUpdated(controller, voucher));
        } else {
            let voucher = EntityCreationVoucher::new(maximum_entities_count);
            self.entity_creation_vouchers.insert(key, voucher);
            self.events.push(Event::EntityCreationVoucherCreated(controller, voucher));
        }
        Ok(())
    }

    /// The class maximum stays within the configured per-class ceiling.
    pub fn ensure_valid_number_of_entities_per_class(&self, maximum_entities_count: EntityId) -> (r:
        Result<(), Error>)
        ensures
            r == if maximum_entities_count < self.config.max_number_of_entities_per_class {
                Result::<(), Error>::Ok(())
            } else {
                Result::<(), Error>::Err(Error::EntitiesPerClassConstraintViolated)
            },
    {
        if maximum_entities_count < self.config.max_number_of_entities_per_class {
            Ok(())
        } else {
            Err(Error::EntitiesPerClassConstraintViolated)
        }
    }

    /// The per-controller limit stays within the configured individual
    /// ceiling.
    pub fn ensure_valid_number_of_class_entities_per_actor_constraint(
        &self,
        per_controller_entity_creation_limit: EntityId,
    ) -> (r: Result<(), Error>)
        ensures
            r == if per_controller_entity_creation_limit
                < self.config.individual_entities_creation_limit {
                Result::<(), Error>::Ok(())
            } else {
                Result::<(), Error>::Err(Error::PerActorConstraintViolated)
            },
    {
        if per_controller_entity_creation_limit < self.config.individual_entities_creation_limit {
            Ok(())
        } else {
            Err(Error::PerActorConstraintViolated)
        }
    }

    /// The exact outcome of checking a new class's creation limits.
    pub open spec fn spec_entities_creation_limits_valid(
        &self,
        maximum_entities_count: EntityId,
        per_controller_entities_creation_limit: EntityId,
    ) -> Result<(), Error> {
        if per_controller_entities_creation_limit >= maximum_entities_count {
            Err(Error::PerControllerLimitExceedsOverallLimit)
        } else if maximum_entities_count >= self.config.max_number_of_entities_per_class {
            Err(Error::EntitiesPerClassConstraintViolated)
        } else if per_controller_entities_creation_limit
            >= self.config.individual_entities_creation_limit {
            Err(Error::PerActorConstraintViolated)
        } else {
            Ok(())
        }
    }

    /// The per-controller limit stays below the class maximum, and both
    /// stay within the configured ceilings.
    pub fn ensure_entities_creation_limits_are_valid(
        &self,
        maximum_entities_count: EntityId,
        per_controller_entities_creation_limit: EntityId,
    ) -> (r: Result<(), Error>)
        ensures
            r == self.spec_entities_creation_limits_valid(
                maximum_entities_count,
                per_controller_entities_creation_limit,
            ),
    {
        if per_controller_entities_creation_limit >= maximum_entities_count {
            return Err(Error::PerControllerLimitExceedsOverallLimit);
        }
        self.ensure_valid_number_of_entities_per_class(maximum_entities_count)?;
        self.ensure_valid_number_of_class_entities_per_actor_constraint(
            per_controller_entities_creation_limit,
        )
    }

    /// There is room for one more class.
    pub fn ensure_class_limit_not_reached(&self) -> (r: Result<(), Error>)
        requires
            self.wf(),
        ensures
            r == if self.class_by_id@.dom().len() < self.config.max_number_of_classes {
                Result::<(), Error>::Ok(())
            } else {
                Result::<(), Error>::Err(Error::ClassLimitReached)
            },
    {
        if (self.class_by_id.len() as u64) < self.config.max_number_of_classes as u64 {
            Ok(())
        } else {
            Err(Error::ClassLimitReached)
        }
    }

    /// The class name satisfies the configured length constraint.
    pub fn ensure_class_name_is_valid(&self, text: &Vec<u8>) -> (r: Result<(), Error>)
        ensures
            r == self.config.class_name_constraint.spec_ensure_valid(
                text@.len() as int,
                Error::NameTooShort,
                Error::NameTooLong,
            ),
    {
        self.config.class_name_constraint.ensure_valid(
            text.len(),
            Error::NameTooShort,
            Error::NameTooLong,
        )
    }

    /// The class description satisfies the configured length constraint.
    pub fn ensure_class_description_is_valid(&self, text: &Vec<u8>) -> (r: Result<(), Error>)
        ensures
            r == self.config.class_description_constraint.spec_ensure_valid(
                text@.len() as int,
                Error::DescriptionTooShort,
                Error::DescriptionTooLong,
            ),
    {
        self.config.class_description_constraint.ensure_valid(
            text.len(),
            Error::DescriptionTooShort,
            Error::DescriptionTooLong,
        )
    }

    /// The exact outcome of `create_class`.
    pub open spec fn spec_create_class(
        &self,
        origin: Origin,
        name: Seq<u8>,
        description: Seq<u8>,
        class_permissions: &ClassPermissions,
        maximum_entities_count: EntityId,
        per_controller_entity_creation_limit: EntityId,
    ) -> Result<(), Error> {
        if !self.spec_is_lead_origin(origin) {
            Err(Error::AccessDenied)
        } else if self.spec_entities_creation_limits_valid(
            maximum_entities_count,
            per_controller_entity_creation_limit,
        ) is Err {
            self.spec_entities_creation_limits_valid(
                maximum_entities_count,
                per_controller_entity_creation_limit,
            )
        } else if self.class_by_id@.dom().len() >= self.config.max_number_of_classes {
            Err(Error::ClassLimitReached)
        } else if self.config.class_name_constraint.spec_ensure_valid(
            name.len() as int,
            Error::NameTooShort,
            Error::NameTooLong,
        ) is Err {
            self.config.class_name_constraint.spec_ensure_valid(
                name.len() as int,
                Error::NameTooShort,
                Error::NameTooLong,
            )
        } else if self.config.class_description_constraint.spec_ensure_valid(
            description.len() as int,
            Error::DescriptionTooShort,
            Error::DescriptionTooLong,
        ) is Err {
            self.config.class_description_constraint.spec_ensure_valid(
                description.len() as int,
                Error::DescriptionTooShort,
                Error::DescriptionTooLong,
            )
        } else if class_permissions.maintainers@.len()
            >= self.config.max_number_of_maintainers_per_class {
            Err(Error::MaintainersLimitReached)
        } else if !self.spec_all_groups_exist(&class_permissions.maintainers) {
            Err(Error::CuratorGroupNotFound)
        } else if self.next_class_id == ClassId::MAX {
            Err(Error::InternalInvariantBroken)
        } else {
            Ok(())
        }
    }

    /// Creates a class under the next class id.
    pub fn create_class(
        &mut self,
        origin: Origin,
        name: Vec<u8>,
        description: Vec<u8>,
        class_permissions: ClassPermissions,
        maximum_entities_count: EntityId,
        per_controller_entity_creation_limit: EntityId,
    ) -> (r: Result<(), Error>)
        requires
            old(self).wf(),
            class_permissions.wf(),
        ensures
            final(self).wf(),
            r == old(self).spec_create_class(
                origin,
                name@,
                description@,
                &class_permissions,
                maximum_entities_count,
                per_controller_entity_creation_limit,
            ),
            r is Err ==> *final(self) == *old(self),
            r is Ok ==> {
                let cid = old(self).next_class_id;
                &&& final(self).class_by_id@.dom() =~= old(self).class_by_id@.dom().insert(cid)
                &&& final(self).class_by_id@[cid].class_permissions == class_permissions
                &&& final(self).class_by_id@[cid].properties@ == Seq::<Property>::empty()
                &&& final(self).class_by_id@[cid].schemas@ == Seq::<Schema>::empty()
                &&& final(self).class_by_id@[cid].name == name
                &&& final(self).class_by_id@[cid].description == description
                &&& final(self).class_by_id@[cid].maximum_entities_count == maximum_entities_count
                &&& final(self).class_by_id@[cid].current_number_of_entities == 0
                &&& final(self).class_by_id@[cid].per_controller_entity_creation_limit
                    == per_controller_entity_creation_limit
                &&& forall|id: ClassId|
                    id != cid && old(self).class_by_id@.dom().contains(id) ==> final(self).class_by_id@[id] == old(self).class_by_id@[id]
                &&& final(self).next_class_id == cid + 1
                &&& final(self).events@ == old(self).events@.push(Event::ClassCreated(cid))
                &&& final(self).entity_by_id == old(self).entity_by_id
                &&& final(self).curator_group_by_id == old(self).curator_group_by_id
                &&& final(self).entity_creation_vouchers == old(self).entity_creation_vouchers
                &&& final(self).next_curator_group_id == old(self).next_curator_group_id
                &&& final(self).next_entity_id == old(self).next_entity_id
                &&& final(self).config == old(self).config
                &&& final(self).authority == old(self).authority
            },
    {
        if let Err(e) = self.ensure_is_lead(origin) {
            return Err(e);
        }
        if let Err(e) = self.ensure_entities_creation_limits_are_valid(
            maximum_entities_count,
            per_controller_entity_creation_limit,
        ) {
            return Err(e);
        }
        if let Err(e) = self.ensure_class_limit_not_reached() {
            return Err(e);
        }
        if let Err(e) = self.ensure_class_name_is_valid(&name) {
            return Err(e);
        }
        if let Err(e) = self.ensure_class_description_is_valid(&description) {
            return Err(e);
        }
        if let Err(e) = self.ensure_class_permissions_are_valid(&class_permissions) {
            return Err(e);
        }
        if self.next_class_id == ClassId::MAX {
            return Err(Error::InternalInvariantBroken);
        }
        let class_id = self.next_class_id;
        let class = Class::new(
            class_permissions,
            name,
            description,
            maximum_entities_count,
            per_controller_entity_creation_limit,
        );
        self.class_by_id.insert(class_id, class);
        self.next_class_id = self.next_class_id + 1;
        self.events.push(Event::ClassCreated(class_id));
        proof {
            if old(self).class_by_id@.dom().contains(class_id) {
                assert(class_id < old(self).next_class_id);
            }
            assert(self.class_by_id@.dom() =~= old(self).class_by_id@.dom().insert(class_id));
            Store::lemma_counts_after_class_create(*old(self), *self, class_id);
        }
        Ok(())
    }

    /// The exact outcome of `update_class_permissions`.
    pub open spec fn spec_update_class_permissions(
        &self,
        origin: Origin,
        class_id: ClassId,
        updated_maintainers: &Option<IdSet>,
    ) -> Result<(), Error> {
        if !self.spec_is_lead_origin(origin) {
            Err(Error::AccessDenied)
        } else if !self.class_by_id@.dom().contains(class_id) {
            Err(Error::ClassNotFound)
        } else {
            match updated_maintainers {
                Some(maintainers) => {
                    if !self.spec_all_groups_exist(maintainers) {
                        Err(Error::CuratorGroupNotFound)
                    } else if maintainers@.len()
                        >= self.config.max_number_of_maintainers_per_class {
                        Err(Error::MaintainersLimitReached)
                    } else {
                        Ok(())
                    }
                },
                None => Ok(()),
            }
        }
    }

    /// Overwrites the given subset of a class's permissions.  With nothing
    /// to update the call succeeds without an event.
    pub fn update_class_permissions(
        &mut self,
        origin: Origin,
        class_id: ClassId,
        updated_any_member: Option<bool>,
        updated_entity_creation_blocked: Option<bool>,
        updated_all_entity_property_values_locked: Option<bool>,
        updated_maintainers: Option<IdSet>,
    ) -> (r: Result<(), Error>)
        requires
            old(self).wf(),
            (updated_maintainers matches Some(m) ==> m.wf()),
        ensures
            final(self).wf(),
            r == old(self).spec_update_class_permissions(origin, class_id, &updated_maintainers),
            r is Err ==> *final(self) == *old(self),
            r is Ok && updated_any_member is None && updated_entity_creation_blocked is None
                && updated_all_entity_property_values_locked is None && updated_maintainers is None
                ==> *final(self) == *old(self),
            r is Ok && !(updated_any_member is None && updated_entity_creation_blocked is None
                && updated_all_entity_property_values_locked is None && updated_maintainers
                is None) ==> {
                let c0 = old(self).class_by_id@[class_id];
                &&& final(self).class_by_id@.dom() == old(self).class_by_id@.dom()
                &&& final(self).class_by_id@[class_id].class_permissions.any_member == (
                match updated_any_member {
                    Some(v) => v,
                    None => c0.class_permissions.any_member,
                })
                &&& final(self).class_by_id@[class_id].class_permissions.entity_creation_blocked
                    == (match updated_entity_creation_blocked {
                    Some(v) => v,
                    None => c0.class_permissions.entity_creation_blocked,
                })
                &&& final(self).class_by_id@[class_id].class_permissions.all_entity_property_values_locked == (
                match updated_all_entity_property_values_locked {
                    Some(v) => v,
                    None => c0.class_permissions.all_entity_property_values_locked,
                })
                &&& final(self).class_by_id@[class_id].class_permissions.maintainers@ == (
                match updated_maintainers {
                    Some(m) => m@,
                    None => c0.class_permissions.maintainers@,
                })
                &&& final(self).class_by_id@[class_id].properties == c0.properties
                &&& final(self).class_by_id@[class_id].schemas == c0.schemas
                &&& final(self).class_by_id@[class_id].name == c0.name
                &&& final(self).class_by_id@[class_id].description == c0.description
                &&& final(self).class_by_id@[class_id].maximum_entities_count
                    == c0.maximum_entities_count
                &&& final(self).class_by_id@[class_id].current_number_of_entities
                    == c0.current_number_of_entities
                &&& final(self).class_by_id@[class_id].per_controller_entity_creation_limit
                    == c0.per_controller_entity_creation_limit
                &&& forall|id: ClassId|
                    id != class_id && old(self).class_by_id@.dom().contains(id) ==> final(self).class_by_id@[id] == old(self).class_by_id@[id]
                &&& final(self).events@ == old(self).events@.push(
                    Event::ClassPermissionsUpdated(class_id),
                )
                &&& final(self).entity_by_id == old(self).entity_by_id
                &&& final(self).curator_group_by_id == old(self).curator_group_by_id
                &&& final(self).entity_creation_vouchers == old(self).entity_creation_vouchers
                &&& final(self).next_curator_group_id == old(self).next_curator_group_id
                &&& final(self).next_class_id == old(self).next_class_id
                &&& final(self).next_entity_id == old(self).next_entity_id
                &&& final(self).config == old(self).config
                &&& final(self).authority == old(self).authority
            },
    {
        if let Err(e) = self.ensure_is_lead(origin) {
            return Err(e);
        }
        if let Err(e) = self.ensure_known_class_id(class_id) {
            return Err(e);
        }
        if let Some(ref maintainers) = updated_maintainers {
            if let Err(e) = self.ensure_curator_groups_exist(maintainers) {
                return Err(e);
            }
            if let Err(e) = self.ensure_maintainers_limit_not_reached(maintainers) {
                return Err(e);
            }
        }
        let nothing_to_update = updated_any_member.is_none()
            && updated_entity_creation_blocked.is_none()
            && updated_all_entity_property_values_locked.is_none()
            && updated_maintainers.is_none();
        if nothing_to_update {
            return Ok(());
        }
        let mut class = match self.class_by_id.remove_key(class_id) {
            Some(class) => class,
            None => {
                return Err(Error::ClassNotFound);
            },
        };
        if let Some(any_member) = updated_any_member {
            class.class_permissions.set_any_member_status(any_member);
        }
        if let Some(blocked) = updated_entity_creation_blocked {
            class.class_permissions.set_entity_creation_blocked(blocked);
        }
        if let Some(locked) = updated_all_entity_property_values_locked {
            class.class_permissions.set_all_entity_property_values_locked(locked);
        }
        if let Some(maintainers) = updated_maintainers {
            class.class_permissions.set_maintainers(maintainers);
        }
        self.class_by_id.insert(class_id, class);
        self.events.push(Event::ClassPermissionsUpdated(class_id));
        proof {
            assert(self.class_by_id@.dom() =~= old(self).class_by_id@.dom());
        }
        Ok(())
    }

    /// The exact outcome of `update_class_schema_status`.
    pub open spec fn spec_update_class_schema_status(
        &self,
        origin: Origin,
        class_id: ClassId,
        schema_id: SchemaId,
    ) -> Result<(), Error> {
        if !self.spec_is_lead_origin(origin) {
            Err(Error::AccessDenied)
        } else if !self.class_by_id@.dom().contains(class_id) {
            Err(Error::ClassNotFound)
        } else if schema_id as int >= self.class_by_id@[class_id].schemas@.len() {
            Err(Error::UnknownSchemaId)
        } else {
            Ok(())
        }
    }

    /// Sets the active flag of a schema.  Deactivation only prevents adding
    /// schema support to entities from then on; no entity is affected.
    pub fn update_class_schema_status(
        &mut self,
        origin: Origin,
        class_id: ClassId,
        schema_id: SchemaId,
        schema_status: bool,
    ) -> (r: Result<(), Error>)
        requires
            old(self).wf(),
        ensures
            final(self).wf(),
            r == old(self).spec_update_class_schema_status(origin, class_id, schema_id),
            r is Err ==> *final(self) == *old(self),
            r is Ok ==> {
                let c0 = old(self).class_by_id@[class_id];
                &&& final(self).class_by_id@.dom() == old(self).class_by_id@.dom()
                &&& final(self).class_by_id@[class_id].schemas@ == c0.schemas@.update(
                    schema_id as int,
                    (Schema { is_active: schema_status, ..c0.schemas@[schema_id as int] }),
                )
                &&& final(self).class_by_id@[class_id].class_permissions == c0.class_permissions
                &&& final(self).class_by_id@[class_id].properties == c0.properties
                &&& final(self).class_by_id@[class_id].name == c0.name
                &&& final(self).class_by_id@[class_id].description == c0.description
                &&& final(self).class_by_id@[class_id].maximum_entities_count
                    == c0.maximum_entities_count
                &&& final(self).class_by_id@[class_id].current_number_of_entities
                    == c0.current_number_of_entities
                &&& final(self).class_by_id@[class_id].per_controller_entity_creation_limit
                    == c0.per_controller_entity_creation_limit
                &&& forall|id: ClassId|
                    id != class_id && old(self).class_by_id@.dom().contains(id) ==> final(self).class_by_id@[id] == old(self).class_by_id@[id]
                &&& final(self).events@ == old(self).events@.push(
                    Event::ClassSchemaStatusUpdated(class_id, schema_id, schema_status),
                )
                &&& final(self).entity_by_id == old(self).entity_by_id
                &&& final(self).curator_group_by_id == old(self).curator_group_by_id
                &&& final(self).entity_creation_vouchers == old(self).entity_creation_vouchers
                &&& final(self).next_curator_group_id == old(self).next_curator_group_id
                &&& final(self).next_class_id == old(self).next_class_id
                &&& final(self).next_entity_id == old(self).next_entity_id
                &&& final(self).config == old(self).config
                &&& final(self).authority == old(self).authority
            },
    {
        if let Err(e) = self.ensure_is_lead(origin) {
            return Err(e);
        }
        {
            let class = match self.ensure_known_class_id(class_id) {
                Ok(class) => class,
                Err(e) => {
                    return Err(e);
                },
            };
            if let Err(e) = class.ensure_schema_id_exists(schema_id) {
                return Err(e);
            }
        }
        let mut class = match self.class_by_id.remove_key(class_id) {
            Some(class) => class,
            None => {
                return Err(Error::ClassNotFound);
            },
        };
        class.update_schema_status(schema_id, schema_status);
        self.class_by_id.insert(class_id, class);
        self.events.push(Event::ClassSchemaStatusUpdated(class_id, schema_id, schema_status));
        proof {
            assert(self.class_by_id@.dom() =~= old(self).class_by_id@.dom());
        }
        Ok(())
    }
    // -----------------------------------------------------------------------
    // Schema addition (lead only)
    // -----------------------------------------------------------------------

    /// A schema must bundle at least one property.
    pub fn ensure_non_empty_schema(
        existing_properties: &Vec<PropertyId>,
        new_properties: &Vec<Property>,
    ) -> (r: Result<(), Error>)
        ensures
            r == if existing_properties@.len() == 0 && new_properties@.len() == 0 {
                Result::<(), Error>::Err(Error::EmptySchema)
            } else {
                Result::<(), Error>::Ok(())
            },
    {
        if existing_properties.len() == 0 && new_properties.len() == 0 {
            Err(Error::EmptySchema)
        } else {
            Ok(())
        }
    }

    /// A name clashes with a class property's name or with an earlier new
    /// property's name.
    pub open spec fn spec_name_clash(
        base: Seq<Property>,
        news: Seq<Property>,
        upto: int,
        name: Seq<u8>,
    ) -> bool {
        ||| exists|j: int| 0 <= j < base.len() && (#[trigger] base[j]).name@ == name
        ||| exists|j: int| 0 <= j < upto && (#[trigger] news[j]).name@ == name
    }

    /// The first error among the new properties, checked in order: name
    /// length, description length, declared type bounds, name uniqueness.
    pub open spec fn spec_check_new_properties_from(
        cfg: StoreConfig,
        base: Seq<Property>,
        news: Seq<Property>,
        i: int,
    ) -> Result<(), Error>
        decreases news.len() - i,
    {
        if i < 0 || i >= news.len() {
            Ok(())
        } else {
            let p = news[i];
            if p.spec_name_valid(cfg.property_name_constraint) is Err {
                p.spec_name_valid(cfg.property_name_constraint)
            } else if p.spec_description_valid(cfg.property_description_constraint) is Err {
                p.spec_description_valid(cfg.property_description_constraint)
            } else if p.spec_type_size_valid(
                cfg.vec_max_length_constraint,
                cfg.text_max_length_constraint,
            ) is Err {
                p.spec_type_size_valid(
                    cfg.vec_max_length_constraint,
                    cfg.text_max_length_constraint,
                )
            } else if Store::spec_name_clash(base, news, i, p.name@) {
                Err(Error::PropertyNameNotUnique)
            } else {
                Store::spec_check_new_properties_from(cfg, base, news, i + 1)
            }
        }
    }

    /// Every existing-property index points into the class's properties.
    pub open spec fn spec_existing_props_valid(existing: Seq<PropertyId>, count: int) -> bool {
        forall|j: int| 0 <= j < existing.len() ==> (#[trigger] existing[j]) < count
    }

    /// Every reference type among the new properties points to an existing
    /// class.
    pub open spec fn spec_new_props_refs_exist(&self, news: Seq<Property>) -> bool {
        forall|j: int|
            0 <= j < news.len() ==> match (#[trigger] news[j]).prop_type.spec_referenced_class_id() {
                Some(class_id) => self.class_by_id@.dom().contains(class_id),
                None => true,
            }
    }

    /// The exact outcome of `add_class_schema`.
    pub open spec fn spec_add_class_schema(
        &self,
        origin: Origin,
        class_id: ClassId,
        existing_properties: Seq<PropertyId>,
        new_properties: Seq<Property>,
    ) -> Result<(), Error> {
        if !self.spec_is_lead_origin(origin) {
            Err(Error::AccessDenied)
        } else if !self.class_by_id@.dom().contains(class_id) {
            Err(Error::ClassNotFound)
        } else if existing_properties.len() == 0 && new_properties.len() == 0 {
            Err(Error::EmptySchema)
        } else if self.class_by_id@[class_id].schemas@.len()
            >= self.config.number_of_schemas_per_class {
            Err(Error::SchemasLimitReached)
        } else if self.class_by_id@[class_id].properties@.len() + new_properties.len()
            > self.config.max_number_of_properties_per_class {
            Err(Error::PropertiesLimitReached)
        } else if Store::spec_check_new_properties_from(
            self.config,
            self.class_by_id@[class_id].properties@,
            new_properties,
            0,
        ) is Err {
            Store::spec_check_new_properties_from(
                self.config,
                self.class_by_id@[class_id].properties@,
                new_properties,
                0,
            )
        } else if !Store::spec_existing_props_valid(
            existing_properties,
            self.class_by_id@[class_id].properties@.len() as int,
        ) {
            Err(Error::SchemaRefersUnknownProp)
        } else if !self.spec_new_props_refs_exist(new_properties) {
            Err(Error::SchemaRefersUnknownClass)
        } else {
            Ok(())
        }
    }

    /// A passed check carries through the remaining new properties.
    proof fn lemma_check_new_properties_ok(
        cfg: StoreConfig,
        base: Seq<Property>,
        news: Seq<Property>,
        i: int,
    )
        requires
            0 <= i <= news.len(),
            Store::spec_check_new_properties_from(cfg, base, news, i) is Ok,
        ensures
            forall|k: int|
                i <= k < news.len() ==> !Store::spec_name_clash(
                    base,
                    news,
                    k,
                    (#[trigger] news[k]).name@,
                ),
        decreases news.len() - i,
    {
        if i < news.len() {
            Store::lemma_check_new_properties_ok(cfg, base, news, i + 1);
        }
    }

    /// Appends new properties to the class and bundles them, together with
    /// the named existing properties, into a new active schema.
    pub fn add_class_schema(
        &mut self,
        origin: Origin,
        class_id: ClassId,
        existing_properties: Vec<PropertyId>,
        new_properties: Vec<Property>,
    ) -> (r: Result<(), Error>)
        requires
            old(self).wf(),
        ensures
            final(self).wf(),
            r == old(self).spec_add_class_schema(
                origin,
                class_id,
                existing_properties@,
                new_properties@,
            ),
            r is Err ==> *final(self) == *old(self),
            r is Ok ==> {
                let c0 = old(self).class_by_id@[class_id];
                let base_len = c0.properties@.len() as int;
                let schema_props = existing_properties@ + Seq::new(
                    new_properties@.len(),
                    |i: int| (base_len + i) as PropertyId,
                );
                &&& final(self).class_by_id@.dom() == old(self).class_by_id@.dom()
                &&& final(self).class_by_id@[class_id].properties@ == c0.properties@
                    + new_properties@
                &&& final(self).class_by_id@[class_id].schemas@.len() == c0.schemas@.len() + 1
                &&& final(self).class_by_id@[class_id].schemas@.subrange(0, c0.schemas@.len() as int)
                    == c0.schemas@
                &&& final(self).class_by_id@[class_id].schemas@.last().spec_properties()
                    == schema_props
                &&& final(self).class_by_id@[class_id].schemas@.last().spec_is_active()
                &&& final(self).class_by_id@[class_id].class_permissions == c0.class_permissions
                &&& final(self).class_by_id@[class_id].name == c0.name
                &&& final(self).class_by_id@[class_id].description == c0.description
                &&& final(self).class_by_id@[class_id].maximum_entities_count
                    == c0.maximum_entities_count
                &&& final(self).class_by_id@[class_id].current_number_of_entities
                    == c0.current_number_of_entities
                &&& final(self).class_by_id@[class_id].per_controller_entity_creation_limit
                    == c0.per_controller_entity_creation_limit
                &&& forall|id: ClassId|
                    id != class_id && old(self).class_by_id@.dom().contains(id) ==> final(self).class_by_id@[id] == old(self).class_by_id@[id]
                &&& final(self).events@ == old(self).events@.push(
                    Event::ClassSchemaAdded(class_id, c0.schemas@.len() as SchemaId),
                )
                &&& final(self).entity_by_id == old(self).entity_by_id
                &&& final(self).curator_group_by_id == old(self).curator_group_by_id
                &&& final(self).entity_creation_vouchers == old(self).entity_creation_vouchers
                &&& final(self).next_curator_group_id == old(self).next_curator_group_id
                &&& final(self).next_class_id == old(self).next_class_id
                &&& final(self).next_entity_id == old(self).next_entity_id
                &&& final(self).config == old(self).config
                &&& final(self).authority == old(self).authority
            },
    {
        if let Err(e) = self.ensure_is_lead(origin) {
            return Err(e);
        }
        {
            let class = match self.ensure_known_class_id(class_id) {
                Ok(class) => class,
                Err(e) => {
                    return Err(e);
                },
            };
            if let Err(e) = Store::ensure_non_empty_schema(&existing_properties, &new_properties) {
                return Err(e);
            }
            if let Err(e) = class.ensure_schemas_limit_not_reached(
                self.config.number_of_schemas_per_class,
            ) {
                return Err(e);
            }
            if let Err(e) = class.ensure_properties_limit_not_reached(
                self.config.max_number_of_properties_per_class,
                &new_properties,
            ) {
                return Err(e);
            }
            let n = new_properties.len();
            let mut i: usize = 0;
            while i < n
                invariant
                    *self == *old(self),
                    old(self).wf(),
                    old(self).spec_is_lead_origin(origin),
                    old(self).class_by_id@.dom().contains(class_id),
                    *class == old(self).class_by_id@[class_id],
                    !(existing_properties@.len() == 0 && new_properties@.len() == 0),
                    old(self).class_by_id@[class_id].schemas@.len() < old(self).config.number_of_schemas_per_class,
                    old(self).class_by_id@[class_id].properties@.len() + new_properties@.len() <= old(self).config.max_number_of_properties_per_class,
                    n == new_properties.len(),
                    i <= n,
                    Store::spec_check_new_properties_from(
                        old(self).config,
                        class.properties@,
                        new_properties@,
                        0,
                    ) == Store::spec_check_new_properties_from(
                        old(self).config,
                        class.properties@,
                        new_properties@,
                        i as int,
                    ),
                decreases n - i,
            {
                let p = &new_properties[i];
                if let Err(e) = p.ensure_name_is_valid(self.config.property_name_constraint) {
                    return Err(e);
                }
                if let Err(e) = p.ensure_description_is_valid(
                    self.config.property_description_constraint,
                ) {
                    return Err(e);
                }
                if let Err(e) = p.ensure_prop_type_size_is_valid(
                    self.config.vec_max_length_constraint,
                    self.config.text_max_length_constraint,
                ) {
                    return Err(e);
                }
                if name_clash(&class.properties, &new_properties, i, &p.name) {
                    return Err(Error::PropertyNameNotUnique);
                }
                i += 1;
            }
            let m = existing_properties.len();
            let mut j: usize = 0;
            while j < m
                invariant
                    *self == *old(self),
                    old(self).wf(),
                    old(self).spec_is_lead_origin(origin),
                    old(self).class_by_id@.dom().contains(class_id),
                    *class == old(self).class_by_id@[class_id],
                    !(existing_properties@.len() == 0 && new_properties@.len() == 0),
                    old(self).class_by_id@[class_id].schemas@.len() < old(self).config.number_of_schemas_per_class,
                    old(self).class_by_id@[class_id].properties@.len() + new_properties@.len() <= old(self).config.max_number_of_properties_per_class,
                    Store::spec_check_new_properties_from(
                        old(self).config,
                        class.properties@,
                        new_properties@,
                        0,
                    ) is Ok,
                    m == existing_properties.len(),
                    j <= m,
                    forall|k: int|
                        0 <= k < j ==> (#[trigger] existing_properties@[k])
                            < class.properties@.len(),
                decreases m - j,
            {
                if existing_properties[j] >= class.properties.len() as u64 {
                    return Err(Error::SchemaRefersUnknownProp);
                }
                j += 1;
            }
            let mut k: usize = 0;
            while k < n
                invariant
                    *self == *old(self),
                    old(self).wf(),
                    old(self).spec_is_lead_origin(origin),
                    old(self).class_by_id@.dom().contains(class_id),
                    *class == old(self).class_by_id@[class_id],
                    !(existing_properties@.len() == 0 && new_properties@.len() == 0),
                    old(self).class_by_id@[class_id].schemas@.len() < old(self).config.number_of_schemas_per_class,
                    old(self).class_by_id@[class_id].properties@.len() + new_properties@.len() <= old(self).config.max_number_of_properties_per_class,
                    Store::spec_check_new_properties_from(
                        old(self).config,
                        class.properties@,
                        new_properties@,
                        0,
                    ) is Ok,
                    Store::spec_existing_props_valid(
                        existing_properties@,
                        class.properties@.len() as int,
                    ),
                    n == new_properties.len(),
                    k <= n,
                    forall|j2: int|
                        0 <= j2 < k ==> match (
                        #[trigger] new_properties@[j2]).prop_type.spec_referenced_class_id() {
                            Some(cid) => self.class_by_id@.dom().contains(cid),
                            None => true,
                        },
                decreases n - k,
            {
                if let Some(ref_class_id) = new_properties[k].prop_type.get_referenced_class_id() {
                    if !self.class_by_id.contains_key(ref_class_id) {
                        return Err(Error::SchemaRefersUnknownClass);
                    }
                }
                k += 1;
            }
        }
        let mut class = match self.class_by_id.remove_key(class_id) {
            Some(class) => class,
            None => {
                return Err(Error::ClassNotFound);
            },
        };
        let ghost c0 = class;
        proof {
            Store::lemma_check_new_properties_ok(
                old(self).config,
                c0.properties@,
                new_properties@,
                0,
            );
        }
        let mut schema_props = existing_properties;
        let mut news = new_properties;
        let ghost news0 = news@;
        let ghost existing0 = schema_props@;
        let ghost base_len = c0.properties@.len() as int;
        let mut appended: usize = 0;
        proof {
            assert(c0.properties@ + news0.subrange(0, 0) =~= c0.properties@);
            assert(schema_props@ =~= existing0 + Seq::new(0, |i: int| (base_len + i) as PropertyId));
        }
        while news.len() > 0
            invariant
                news0.len() <= MaxNumber::MAX,
                base_len + news0.len() <= MaxNumber::MAX,
                base_len == c0.properties@.len(),
                appended <= news0.len(),
                news@ == news0.subrange(appended as int, news0.len() as int),
                class.properties@ == c0.properties@ + news0.subrange(0, appended as int),
                schema_props@ == existing0 + Seq::new(
                    appended as nat,
                    |i: int| (base_len + i) as PropertyId,
                ),
                class.schemas == c0.schemas,
                class.class_permissions == c0.class_permissions,
                class.name == c0.name,
                class.description == c0.description,
                class.maximum_entities_count == c0.maximum_entities_count,
                class.current_number_of_entities == c0.current_number_of_entities,
                class.per_controller_entity_creation_limit
                    == c0.per_controller_entity_creation_limit,
            decreases news@.len(),
        {
            let p = news.remove(0);
            let pid = class.properties.len() as u64;
            schema_props.push(pid);
            class.properties.push(p);
            proof {
                assert(news@ =~= news0.subrange(appended + 1 as int, news0.len() as int));
                assert(news0.subrange(appended as int, news0.len() as int)[0] == news0[appended as int]);
                assert(class.properties@ =~= c0.properties@ + news0.subrange(
                    0,
                    appended + 1 as int,
                ));
                assert(schema_props@ =~= existing0 + Seq::new(
                    (appended + 1) as nat,
                    |i: int| (base_len + i) as PropertyId,
                ));
            }
            appended = appended + 1;
        }
        proof {
            assert(news0.subrange(0, news0.len() as int) =~= news0);
            assert(class.properties@ == c0.properties@ + news0);
        }
        let ghost schema_id = c0.schemas@.len();
        let schema = Schema::new(schema_props);
        class.schemas.push(schema);
        let schema_index = (class.schemas.len() - 1) as u64;
        proof {
            // The extended property list keeps names pairwise distinct.
            assert forall|a: int, b: int|
                0 <= a < b < class.properties@.len() implies class.properties@[a].name@
                != class.properties@[b].name@ by {
                if b >= base_len {
                    assert(class.properties@[b] == news0[b - base_len]);
                    assert(!Store::spec_name_clash(
                        c0.properties@,
                        news0,
                        b - base_len,
                        news0[b - base_len].name@,
                    ));
                    if a < base_len {
                        assert(class.properties@[a] == c0.properties@[a]);
                    } else {
                        assert(class.properties@[a] == news0[a - base_len]);
                    }
                } else {
                    assert(class.properties@[a] == c0.properties@[a]);
                    assert(class.properties@[b] == c0.properties@[b]);
                }
            }
            // Old schemas stay valid against the longer property list; the
            // new schema indexes only existing properties.
            assert forall|s: int| 0 <= s < class.schemas@.len() implies {
                let props = (#[trigger] class.schemas@[s]).spec_properties();
                props.len() > 0 && forall|k2: int|
                    0 <= k2 < props.len() ==> (#[trigger] props[k2]) < class.properties@.len()
            } by {
                if s < c0.schemas@.len() {
                    assert(class.schemas@[s] == c0.schemas@[s]);
                    assert(c0.wf());
                    let props = class.schemas@[s].spec_properties();
                    assert forall|k2: int| 0 <= k2 < props.len() implies (#[trigger] props[k2])
                        < class.properties@.len() by {
                        assert(props[k2] < c0.properties@.len());
                    }
                } else {
                    let props = class.schemas@[s].spec_properties();
                    assert(props =~= existing0 + Seq::new(
                        news0.len(),
                        |i: int| (base_len + i) as PropertyId,
                    ));
                    assert(props.len() == existing0.len() + news0.len());
                    assert forall|k2: int| 0 <= k2 < props.len() implies (#[trigger] props[k2])
                        < class.properties@.len() by {
                        if k2 < existing0.len() {
                            assert(props[k2] == existing0[k2]);
                        } else {
                            assert(props[k2] == (base_len + (k2 - existing0.len())) as PropertyId);
                        }
                    }
                }
            }
            assert(class.wf());
        }
        self.class_by_id.insert(class_id, class);
        self.events.push(Event::ClassSchemaAdded(class_id, schema_index));
        proof {
            assert(self.class_by_id@.dom() =~= old(self).class_by_id@.dom());
            assert(self.class_by_id@[class_id].schemas@.subrange(0, c0.schemas@.len() as int)
                =~= c0.schemas@);
        }
        Ok(())
    }
}

} // verus!

verus! {

/// Whether `name` repeats a name of `base` or of the first `upto` entries
/// of `news`.
fn name_clash(base: &Vec<Property>, news: &Vec<Property>, upto: usize, name: &Vec<u8>) -> (r: bool)
    requires
        upto <= news@.len(),
    ensures
        r == Store::spec_name_clash(base@, news@, upto as int, name@),
{
    let n = base.len();
    let mut i: usize = 0;
    while i < n
        invariant
            n == base.len(),
            i <= n,
            forall|j: int| 0 <= j < i ==> (#[trigger] base@[j]).name@ != name@,
        decreases n - i,
    {
        if crate::schema::bytes_eq(&base[i].name, name) {
            return true;
        }
        i += 1;
    }
    let mut k: usize = 0;
    while k < upto
        invariant
            upto <= news@.len(),
            forall|j: int| 0 <= j < n as int && j < base@.len() ==> (#[trigger] base@[j]).name@ != name@,
            n == base.len(),
            k <= upto,
            forall|j: int| 0 <= j < k ==> (#[trigger] news@[j]).name@ != name@,
        decreases upto - k,
    {
        if crate::schema::bytes_eq(&news[k].name, name) {
            return true;
        }
        k += 1;
    }
    false
}

} // verus!
