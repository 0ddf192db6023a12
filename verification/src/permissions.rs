//! Permissions and actors: caller roles, entity controllers, class and
//! entity permission flags, curator groups, creation vouchers, and the
//! derivation of a caller's access level to an entity.
//!
//! The host's actor-authentication module is modelled as plain data
//! ([`Authority`]): it answers whether a signed account is the lead, owns a
//! member id, or owns a curator id.

use vstd::prelude::*;
use crate::collections::IdSet;
use crate::collections::KvMap;
use crate::errors::Error;
use crate::AccountId;
use crate::CuratorGroupId;
use crate::CuratorId;
use crate::EntityId;
use crate::MaxNumber;
use crate::MemberId;

verus! {

/// The caller's role: the lead, a member, or a curator acting for a group.
#[derive(Clone, Copy, Debug, PartialEq, Eq, Structural)]
pub enum Actor {
    Lead,
    Member(MemberId),
    Curator(CuratorGroupId, CuratorId),
}

/// The principal owning an entity, derived from the creating actor.
#[derive(Clone, Copy, Debug, PartialEq, Eq, Structural)]
pub enum EntityController {
    Lead,
    Member(MemberId),
    CuratorGroup(CuratorGroupId),
}

impl EntityController {
    /// The controller an actor's entities get: curators control through
    /// their group, members through their member id, the lead as itself.
    pub open spec fn spec_from_actor(actor: Actor) -> EntityController {
        match actor {
            Actor::Lead => EntityController::Lead,
            Actor::Member(member_id) => EntityController::Member(member_id),
            Actor::Curator(group_id, _) => EntityController::CuratorGroup(group_id),
        }
    }

    pub fn from_actor(actor: &Actor) -> (r: EntityController)
        ensures
            r == EntityController::spec_from_actor(*actor),
    {
        match actor {
            Actor::Lead => EntityController::Lead,
            Actor::Member(member_id) => EntityController::Member(*member_id),
            Actor::Curator(group_id, _) => EntityController::CuratorGroup(*group_id),
        }
    }
}

/// A call's origin as the host hands it over.
#[derive(Clone, Copy, Debug, PartialEq, Eq, Structural)]
pub enum Origin {
    Signed(AccountId),
    Unsigned,
}

impl Origin {
    /// The signed account, when there is one.
    pub open spec fn spec_signed(self) -> Option<AccountId> {
        match self {
            Origin::Signed(account) => Some(account),
            Origin::Unsigned => None,
        }
    }

    /// Rejects an unsigned origin, handing back the signed account.
    pub fn ensure_signed(self) -> (r: Result<AccountId, Error>)
        ensures
            r == match self.spec_signed() {
                Some(account) => Result::<AccountId, Error>::Ok(account),
                None => Result::<AccountId, Error>::Err(Error::AccessDenied),
            },
    {
        match self {
            Origin::Signed(account) => Ok(account),
            Origin::Unsigned => Err(Error::AccessDenied),
        }
    }
}

/// The actor-authentication module's answers, as data.
#[derive(Debug)]
pub struct Authority {
    /// The account of the lead, when one is set.
    pub lead_account: Option<AccountId>,
    /// Which accounts own which member ids.
    pub member_accounts: Vec<(MemberId, AccountId)>,
    /// Which accounts own which curator ids.
    pub curator_accounts: Vec<(CuratorId, AccountId)>,
}

impl Authority {
    pub open spec fn spec_is_lead(&self, account: AccountId) -> bool {
        self.lead_account == Some(account)
    }

    pub open spec fn spec_is_member(&self, member_id: MemberId, account: AccountId) -> bool {
        self.member_accounts@.contains((member_id, account))
    }

    pub open spec fn spec_is_curator(&self, curator_id: CuratorId, account: AccountId) -> bool {
        self.curator_accounts@.contains((curator_id, account))
    }

    pub fn new() -> (r: Authority)
        ensures
            r.lead_account is None,
            r.member_accounts@ == Seq::<(MemberId, AccountId)>::empty(),
            r.curator_accounts@ == Seq::<(CuratorId, AccountId)>::empty(),
    {
        Authority { lead_account: None, member_accounts: Vec::new(), curator_accounts: Vec::new() }
    }

    pub fn is_lead(&self, account: AccountId) -> (r: bool)
        ensures
            r == self.spec_is_lead(account),
    {
        match self.lead_account {
            Some(lead) => lead == account,
            None => false,
        }
    }

    pub fn is_member(&self, member_id: MemberId, account: AccountId) -> (r: bool)
        ensures
            r == self.spec_is_member(member_id, account),
    {
        pairs_contain(&self.member_accounts, member_id, account)
    }

    pub fn is_curator(&self, curator_id: CuratorId, account: AccountId) -> (r: bool)
        ensures
            r == self.spec_is_curator(curator_id, account),
    {
        pairs_contain(&self.curator_accounts, curator_id, account)
    }
}

fn pairs_contain(pairs: &Vec<(u64, u64)>, a: u64, b: u64) -> (r: bool)
    ensures
        r == pairs@.contains((a, b)),
{
    let n = pairs.len();
    let mut i: usize = 0;
    while i < n
        invariant
            n == pairs.len(),
            i <= n,
            forall|j: int| 0 <= j < i ==> pairs@[j] != (a, b),
        decreases n - i,
    {
        if pairs[i].0 == a && pairs[i].1 == b {
            proof {
                assert(pairs@[i as int] == (a, b));
            }
            return true;
        }
        i += 1;
    }
    false
}

/// Permissions of one entity.
#[derive(Clone, Copy, Debug, PartialEq, Eq, Structural)]
pub struct EntityPermissions {
    /// The principal owning the entity.
    pub controller: EntityController,
    /// The controller may not mutate the entity while frozen.
    pub frozen: bool,
    /// Other entities may reference this entity only while referenceable.
    pub referenceable: bool,
}

impl EntityPermissions {
    pub fn default_with_controller(controller: EntityController) -> (r: EntityPermissions)
        ensures
            r.controller == controller,
            !r.frozen,
            r.referenceable,
    {
        EntityPermissions { controller, frozen: false, referenceable: true }
    }

    pub fn get_controller(&self) -> (r: EntityController)
        ensures
            r == self.controller,
    {
        self.controller
    }

    pub fn set_controller(&mut self, controller: EntityController)
        ensures
            *final(self) == (EntityPermissions { controller, ..*old(self) }),
    {
        self.controller = controller;
    }

    pub fn set_frozen(&mut self, frozen: bool)
        ensures
            *final(self) == (EntityPermissions { frozen, ..*old(self) }),
    {
        self.frozen = frozen;
    }

    pub fn set_referenceable(&mut self, referenceable: bool)
        ensures
            *final(self) == (EntityPermissions { referenceable, ..*old(self) }),
    {
        self.referenceable = referenceable;
    }

    pub fn controller_is_equal_to(&self, controller: &EntityController) -> (r: bool)
        ensures
            r == (self.controller == *controller),
    {
        self.controller == *controller
    }

    /// Only the controller or a maintainer may remove an entity.
    pub open spec fn spec_can_remove(level: EntityAccessLevel) -> Result<(), Error> {
        match level {
            EntityAccessLevel::EntityController => Ok(()),
            EntityAccessLevel::EntityMaintainer => Ok(()),
            EntityAccessLevel::Any => Err(Error::AccessDenied),
        }
    }

    pub fn ensure_group_can_remove_entity(level: EntityAccessLevel) -> (r: Result<(), Error>)
        ensures
            r == EntityPermissions::spec_can_remove(level),
    {
        match level {
            EntityAccessLevel::EntityController => Ok(()),
            EntityAccessLevel::EntityMaintainer => Ok(()),
            EntityAccessLevel::Any => Err(Error::AccessDenied),
        }
    }
}

/// Permissions of one class.
#[derive(Debug)]
pub struct ClassPermissions {
    /// Any member may create entities of the class.
    pub any_member: bool,
    /// Entity creation is blocked for everyone but by lifting this flag.
    pub entity_creation_blocked: bool,
    /// All property values of the class's entities are locked.
    pub all_entity_property_values_locked: bool,
    /// The curator groups maintaining the class.
    pub maintainers: IdSet,
}

impl ClassPermissions {
    pub open spec fn wf(&self) -> bool {
        self.maintainers.wf()
    }

    pub fn default() -> (r: ClassPermissions)
        ensures
            r.wf(),
            !r.any_member,
            !r.entity_creation_blocked,
            !r.all_entity_property_values_locked,
            r.maintainers@ == Set::<CuratorGroupId>::empty(),
    {
        ClassPermissions {
            any_member: false,
            entity_creation_blocked: false,
            all_entity_property_values_locked: false,
            maintainers: IdSet::new(),
        }
    }

    pub fn new(
        any_member: bool,
        entity_creation_blocked: bool,
        all_entity_property_values_locked: bool,
        maintainers: IdSet,
    ) -> (r: ClassPermissions)
        ensures
            r.any_member == any_member,
            r.entity_creation_blocked == entity_creation_blocked,
            r.all_entity_property_values_locked == all_entity_property_values_locked,
            r.maintainers == maintainers,
    {
        ClassPermissions { any_member, entity_creation_blocked, all_entity_property_values_locked, maintainers }
    }

    pub fn any_member_status(&self) -> (r: bool)
        ensures
            r == self.any_member,
    {
        self.any_member
    }

    pub fn all_entity_property_values_locked(&self) -> (r: bool)
        ensures
            r == self.all_entity_property_values_locked,
    {
        self.all_entity_property_values_locked
    }

    pub fn set_any_member_status(&mut self, any_member: bool)
        ensures
            final(self).any_member == any_member,
            final(self).entity_creation_blocked == old(self).entity_creation_blocked,
            final(self).all_entity_property_values_locked == old(
                self,
            ).all_entity_property_values_locked,
            final(self).maintainers == old(self).maintainers,
    {
        self.any_member = any_member;
    }

    pub fn set_entity_creation_blocked(&mut self, blocked: bool)
        ensures
            final(self).entity_creation_blocked == blocked,
            final(self).any_member == old(self).any_member,
            final(self).all_entity_property_values_locked == old(
                self,
            ).all_entity_property_values_locked,
            final(self).maintainers == old(self).maintainers,
    {
        self.entity_creation_blocked = blocked;
    }

    pub fn set_all_entity_property_values_locked(&mut self, locked: bool)
        ensures
            final(self).all_entity_property_values_locked == locked,
            final(self).any_member == old(self).any_member,
            final(self).entity_creation_blocked == old(self).entity_creation_blocked,
            final(self).maintainers == old(self).maintainers,
    {
        self.all_entity_property_values_locked = locked;
    }

    pub fn set_maintainers(&mut self, maintainers: IdSet)
        ensures
            final(self).maintainers == maintainers,
            final(self).any_member == old(self).any_member,
            final(self).entity_creation_blocked == old(self).entity_creation_blocked,
            final(self).all_entity_property_values_locked == old(
                self,
            ).all_entity_property_values_locked,
    {
        self.maintainers = maintainers;
    }

    pub fn get_maintainers(&self) -> (r: &IdSet)
        ensures
            *r == self.maintainers,
    {
        &self.maintainers
    }

    pub fn is_maintainer(&self, group_id: CuratorGroupId) -> (r: bool)
        ensures
            r == self.maintainers@.contains(group_id),
    {
        self.maintainers.contains(group_id)
    }

    pub fn ensure_maintainer_exists(&self, group_id: CuratorGroupId) -> (r: Result<(), Error>)
        ensures
            r == if self.maintainers@.contains(group_id) {
                Result::<(), Error>::Ok(())
            } else {
                Result::<(), Error>::Err(Error::MaintainerDoesNotExist)
            },
    {
        if self.maintainers.contains(group_id) {
            Ok(())
        } else {
            Err(Error::MaintainerDoesNotExist)
        }
    }

    pub fn ensure_maintainer_does_not_exist(&self, group_id: CuratorGroupId) -> (r: Result<
        (),
        Error,
    >)
        ensures
            r == if self.maintainers@.contains(group_id) {
                Result::<(), Error>::Err(Error::MaintainerAlreadyExists)
            } else {
                Result::<(), Error>::Ok(())
            },
    {
        if self.maintainers.contains(group_id) {
            Err(Error::MaintainerAlreadyExists)
        } else {
            Ok(())
        }
    }

    pub fn ensure_entity_creation_not_blocked(&self) -> (r: Result<(), Error>)
        ensures
            r == if self.entity_creation_blocked {
                Result::<(), Error>::Err(Error::EntityCreationBlocked)
            } else {
                Result::<(), Error>::Ok(())
            },
    {
        if self.entity_creation_blocked {
            Err(Error::EntityCreationBlocked)
        } else {
            Ok(())
        }
    }
}

/// A group of curators, maintainable over classes.
#[derive(Debug)]
pub struct CuratorGroup {
    /// The curators belonging to the group.
    pub curators: IdSet,
    /// An inactive group cannot act.
    pub active: bool,
    /// How many classes list the group as maintainer.
    pub number_of_classes_maintained: MaxNumber,
}

impl CuratorGroup {
    pub open spec fn wf(&self) -> bool {
        self.curators.wf()
    }

    /// A new, initially inactive group without curators.
    pub fn default() -> (r: CuratorGroup)
        ensures
            r.wf(),
            r.curators@ == Set::<CuratorId>::empty(),
            !r.active,
            r.number_of_classes_maintained == 0,
    {
        CuratorGroup { curators: IdSet::new(), active: false, number_of_classes_maintained: 0 }
    }

    pub fn is_active(&self) -> (r: bool)
        ensures
            r == self.active,
    {
        self.active
    }

    pub fn set_status(&mut self, active: bool)
        ensures
            final(self).active == active,
            final(self).curators == old(self).curators,
            final(self).number_of_classes_maintained == old(self).number_of_classes_maintained,
    {
        self.active = active;
    }

    pub fn get_curators(&self) -> (r: &IdSet)
        ensures
            *r == self.curators,
    {
        &self.curators
    }

    /// A group may only be removed while it maintains no class.
    pub fn ensure_curator_is_not_a_maintainer(&self) -> (r: Result<(), Error>)
        ensures
            r == if self.number_of_classes_maintained == 0 {
                Result::<(), Error>::Ok(())
            } else {
                Result::<(), Error>::Err(Error::CuratorGroupMaintainsClass)
            },
    {
        if self.number_of_classes_maintained == 0 {
            Ok(())
        } else {
            Err(Error::CuratorGroupMaintainsClass)
        }
    }

    pub fn ensure_max_number_of_curators_limit_not_reached(&self, limit: MaxNumber) -> (r: Result<
        (),
        Error,
    >)
        requires
            self.wf(),
        ensures
            r == if self.curators@.len() < limit {
                Result::<(), Error>::Ok(())
            } else {
                Result::<(), Error>::Err(Error::CuratorsLimitReached)
            },
    {
        if self.curators.len() < limit as usize {
            Ok(())
        } else {
            Err(Error::CuratorsLimitReached)
        }
    }
}

/// Per-(class, controller) creation quota.
#[derive(Clone, Copy, Debug, PartialEq, Eq, Structural)]
pub struct EntityCreationVoucher {
    /// How many entities this controller may create in the class at most.
    pub maximum_entities_count: EntityId,
    /// How many it has created so far.
    pub entities_created: EntityId,
}

impl EntityCreationVoucher {
    pub fn new(maximum_entities_count: EntityId) -> (r: EntityCreationVoucher)
        ensures
            r.maximum_entities_count == maximum_entities_count,
            r.entities_created == 0,
    {
        EntityCreationVoucher { maximum_entities_count, entities_created: 0 }
    }

    pub fn limit_not_reached(&self) -> (r: bool)
        ensures
            r == (self.entities_created < self.maximum_entities_count),
    {
        self.entities_created < self.maximum_entities_count
    }

    /// A new maximum must still cover what was already created.
    pub fn ensure_new_max_entities_count_is_valid(&self, maximum_entities_count: EntityId) -> (r:
        Result<(), Error>)
        ensures
            r == if maximum_entities_count >= self.entities_created {
                Result::<(), Error>::Ok(())
            } else {
                Result::<(), Error>::Err(Error::VoucherMaxBelowCreatedCount)
            },
    {
        if maximum_entities_count >= self.entities_created {
            Ok(())
        } else {
            Err(Error::VoucherMaxBelowCreatedCount)
        }
    }

    pub fn set_maximum_entities_count(&mut self, maximum_entities_count: EntityId)
        ensures
            *final(self) == (EntityCreationVoucher { maximum_entities_count, ..*old(self) }),
    {
        self.maximum_entities_count = maximum_entities_count;
    }

    pub fn increment_created_entities_count(&mut self)
        requires
            old(self).entities_created < EntityId::MAX,
        ensures
            final(self).entities_created == old(self).entities_created + 1,
            final(self).maximum_entities_count == old(self).maximum_entities_count,
    {
        self.entities_created = self.entities_created + 1;
    }
}

/// The access level a caller holds on one entity for one call.
#[derive(Clone, Copy, Debug, PartialEq, Eq, Structural)]
pub enum EntityAccessLevel {
    /// The caller is the entity's controller.
    EntityController,
    /// The caller is a curator in a maintainer group of the entity's class.
    EntityMaintainer,
    /// The caller holds only the class-wide `any_member` permission.
    Any,
}

/// Whether `curator_id` of `group_id` is authenticated by `account`: the
/// group exists, is active, lists the curator, and the account owns the
/// curator id.
pub open spec fn spec_curator_ok(
    groups: Map<CuratorGroupId, CuratorGroup>,
    authority: &Authority,
    group_id: CuratorGroupId,
    curator_id: CuratorId,
    account: AccountId,
) -> bool {
    &&& groups.dom().contains(group_id)
    &&& groups[group_id].active
    &&& groups[group_id].curators@.contains(curator_id)
    &&& authority.spec_is_curator(curator_id, account)
}

pub fn curator_ok(
    groups: &KvMap<CuratorGroup>,
    authority: &Authority,
    group_id: CuratorGroupId,
    curator_id: CuratorId,
    account: AccountId,
) -> (r: bool)
    requires
        groups.wf(),
        forall|id: CuratorGroupId| groups@.dom().contains(id) ==> (#[trigger] groups@[id]).wf(),
    ensures
        r == spec_curator_ok(groups@, authority, group_id, curator_id, account),
{
    match groups.get(group_id) {
        Some(group) => group.is_active() && group.curators.contains(curator_id)
            && authority.is_curator(curator_id, account),
        None => false,
    }
}

/// Whether `account` authenticates `actor` at all.
pub open spec fn spec_actor_authenticated(
    groups: Map<CuratorGroupId, CuratorGroup>,
    authority: &Authority,
    actor: Actor,
    account: AccountId,
) -> bool {
    match actor {
        Actor::Lead => authority.spec_is_lead(account),
        Actor::Member(member_id) => authority.spec_is_member(member_id, account),
        Actor::Curator(group_id, curator_id) => spec_curator_ok(
            groups,
            authority,
            group_id,
            curator_id,
            account,
        ),
    }
}

pub fn actor_authenticated(
    groups: &KvMap<CuratorGroup>,
    authority: &Authority,
    actor: &Actor,
    account: AccountId,
) -> (r: bool)
    requires
        groups.wf(),
        forall|id: CuratorGroupId| groups@.dom().contains(id) ==> (#[trigger] groups@[id]).wf(),
    ensures
        r == spec_actor_authenticated(groups@, authority, *actor, account),
{
    match actor {
        Actor::Lead => authority.is_lead(account),
        Actor::Member(member_id) => authority.is_member(*member_id, account),
        Actor::Curator(group_id, curator_id) => curator_ok(
            groups,
            authority,
            *group_id,
            *curator_id,
            account,
        ),
    }
}

impl EntityAccessLevel {
    /// The access level `account`/`actor` holds on an entity, derived from
    /// the entity's and its class's permissions: the entity's controller
    /// (unless frozen), a maintainer of the class, or — when the class
    /// grants `any_member` — any authenticated actor.
    pub open spec fn spec_derive(
        account: AccountId,
        entity_permissions: EntityPermissions,
        class_permissions: &ClassPermissions,
        actor: Actor,
        authority: &Authority,
        groups: Map<CuratorGroupId, CuratorGroup>,
    ) -> Result<EntityAccessLevel, Error> {
        let controller = EntityController::spec_from_actor(actor);
        if entity_permissions.controller == controller && spec_actor_authenticated(
            groups,
            authority,
            actor,
            account,
        ) {
            if entity_permissions.frozen {
                Err(Error::EntityFrozen)
            } else {
                Ok(EntityAccessLevel::EntityController)
            }
        } else if (actor matches Actor::Curator(group_id, curator_id) && spec_curator_ok(
            groups,
            authority,
            group_id,
            curator_id,
            account,
        ) && class_permissions.maintainers@.contains(group_id)) {
            Ok(EntityAccessLevel::EntityMaintainer)
        } else if class_permissions.any_member && spec_actor_authenticated(
            groups,
            authority,
            actor,
            account,
        ) {
            Ok(EntityAccessLevel::Any)
        } else {
            Err(Error::AccessDenied)
        }
    }

    pub fn derive(
        account: AccountId,
        entity_permissions: &EntityPermissions,
        class_permissions: &ClassPermissions,
        actor: &Actor,
        authority: &Authority,
        groups: &KvMap<CuratorGroup>,
    ) -> (r: Result<EntityAccessLevel, Error>)
        requires
            groups.wf(),
            forall|id: CuratorGroupId| groups@.dom().contains(id) ==> (
            #[trigger] groups@[id]).wf(),
        ensures
            r == EntityAccessLevel::spec_derive(
                account,
                *entity_permissions,
                class_permissions,
                *actor,
                authority,
                groups@,
            ),
    {
        let controller = EntityController::from_actor(actor);
        if entity_permissions.controller_is_equal_to(&controller) && actor_authenticated(
            groups,
            authority,
            actor,
            account,
        ) {
            if entity_permissions.frozen {
                Err(Error::EntityFrozen)
            } else {
                Ok(EntityAccessLevel::EntityController)
            }
        } else {
            let maintainer = match actor {
                Actor::Curator(group_id, curator_id) => curator_ok(
                    groups,
                    authority,
                    *group_id,
                    *curator_id,
                    account,
                ) && class_permissions.is_maintainer(*group_id),
                _ => false,
            };
            if maintainer {
                Ok(EntityAccessLevel::EntityMaintainer)
            } else if class_permissions.any_member && actor_authenticated(
                groups,
                authority,
                actor,
                account,
            ) {
                Ok(EntityAccessLevel::Any)
            } else {
                Err(Error::AccessDenied)
            }
        }
    }
}

} // verus!
