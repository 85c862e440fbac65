//! The type-erased component registry.
//!
//! One registration per component kind, keyed both by the kind's
//! stable UUID and by the host runtime's opaque type token.  A kind is
//! registered exactly once; after that the set is only read.  Each
//! registration carries the operations the prefab engine needs:
//! attach, detach, fetch, diff and apply, all over component values in
//! their canonical wire form.

use vstd::prelude::*;

use crate::diff::apply_diff_value;
use crate::diff::diff_values;
use crate::diff::spec_apply_diff;
use crate::diff::spec_diff_payload;
use crate::diff::spec_diff_result;
use crate::diff::view_side;
use crate::diff::DiffPayload;
use crate::diff::DiffSingleResult;
use crate::ids::ComponentTypeUuid;
use crate::world::spec_get;
use crate::world::world_wf;
use crate::world::World;

verus! {

/// Everything the engine knows of one component kind.
pub struct ComponentRegistration {
    /// The ECS-level key of the kind's storage column.
    pub component_type_id: u64,
    /// The kind's stable identity across builds and processes.
    pub uuid: ComponentTypeUuid,
    /// The host runtime's opaque type token.
    pub ty: u64,
    /// A diagnostic name.
    pub kind_name: String,
    /// The value a default-constructed component serializes to.
    pub default_value: Vec<u8>,
}

impl ComponentRegistration {
    /// Builds the registration of one component kind from its
    /// identities and its default value's wire form.
    pub fn of(
        component_type_id: u64,
        uuid: ComponentTypeUuid,
        ty: u64,
        kind_name: String,
        default_value: Vec<u8>,
    ) -> (r: ComponentRegistration)
        ensures
            r.component_type_id == component_type_id,
            r.uuid == uuid,
            r.ty == ty,
            r.kind_name@ == kind_name@,
            r.default_value@ == default_value@,
    {
        ComponentRegistration { component_type_id, uuid, ty, kind_name, default_value }
    }

    /// The ECS-level key of this kind.
    pub fn component_type_id(&self) -> (r: u64)
        ensures
            r == self.component_type_id,
    {
        self.component_type_id
    }

    /// The stable identity of this kind.
    pub fn uuid(&self) -> (r: &ComponentTypeUuid)
        ensures
            *r == self.uuid,
    {
        &self.uuid
    }

    /// The host runtime's type token of this kind.
    pub fn ty(&self) -> (r: u64)
        ensures
            r == self.ty,
    {
        self.ty
    }

    /// The diagnostic name of this kind.
    pub fn kind_name(&self) -> (r: &String)
        ensures
            r@ == self.kind_name@,
    {
        &self.kind_name
    }

    /// Fetches this kind's value from an entity and emits it.  The
    /// component must be present; its absence is a programmer error.
    pub fn serialize_single(&self, world: &World, entity: usize) -> (r: Vec<u8>)
        requires
            entity < world.entities@.len(),
            spec_get(world.entities@[entity as int].components@, self.uuid) is Some,
        ensures
            Some(r@) == spec_get(world.entities@[entity as int].components@, self.uuid),
    {
        match world.entities[entity].get_component(self.uuid) {
            Some(v) => v.clone(),
            None => {
                proof {
                    assert(false);
                }
                Vec::new()
            },
        }
    }

    /// Inserts a default value of this kind.
    pub fn add_default_to_entity(&self, world: &mut World, entity: usize)
        requires
            world_wf(*old(world)),
            entity < old(world).entities@.len(),
        ensures
            world_wf(*final(world)),
            final(world).entities@.len() == old(world).entities@.len(),
            forall|e: int|
                0 <= e < old(world).entities@.len() && e != entity
                    ==> final(world).entities@[e] == old(world).entities@[e],
            forall|x: ComponentTypeUuid| #[trigger]
                spec_get(final(world).entities@[entity as int].components@, x) == (if x
                    == self.uuid {
                    Some(self.default_value@)
                } else {
                    spec_get(old(world).entities@[entity as int].components@, x)
                }),
    {
        let value = self.default_value.clone();
        let rec = &mut world.entities[entity];
        rec.add_component(self.uuid, value);
    }

    /// Parses one value of this kind from its wire form and attaches
    /// it, replacing any value the kind already had.
    pub fn add_to_entity(&self, data: &Vec<u8>, world: &mut World, entity: usize)
        requires
            world_wf(*old(world)),
            entity < old(world).entities@.len(),
        ensures
            world_wf(*final(world)),
            final(world).entities@.len() == old(world).entities@.len(),
            forall|e: int|
                0 <= e < old(world).entities@.len() && e != entity
                    ==> final(world).entities@[e] == old(world).entities@[e],
            forall|x: ComponentTypeUuid| #[trigger]
                spec_get(final(world).entities@[entity as int].components@, x) == (if x
                    == self.uuid {
                    Some(data@)
                } else {
                    spec_get(old(world).entities@[entity as int].components@, x)
                }),
    {
        let value = data.clone();
        let rec = &mut world.entities[entity];
        rec.add_component(self.uuid, value);
    }

    /// Detaches this kind from an entity, if present.
    pub fn remove_from_entity(&self, world: &mut World, entity: usize)
        requires
            world_wf(*old(world)),
            entity < old(world).entities@.len(),
        ensures
            world_wf(*final(world)),
            final(world).entities@.len() == old(world).entities@.len(),
            forall|e: int|
                0 <= e < old(world).entities@.len() && e != entity
                    ==> final(world).entities@[e] == old(world).entities@[e],
            forall|x: ComponentTypeUuid| #[trigger]
                spec_get(final(world).entities@[entity as int].components@, x) == (if x
                    == self.uuid {
                    None
                } else {
                    spec_get(old(world).entities@[entity as int].components@, x)
                }),
    {
        let rec = &mut world.entities[entity];
        rec.remove_component(self.uuid);
    }

    /// This kind's value on one side of a diff: absent where no
    /// entity is given, where the handle is dead, or where the entity
    /// does not carry the kind.
    pub open spec fn spec_side_value(&self, world: World, entity: Option<usize>) -> Option<Seq<u8>> {
        match entity {
            Some(e) => if e < world.entities@.len() {
                spec_get(world.entities@[e as int].components@, self.uuid)
            } else {
                None
            },
            None => None,
        }
    }

    /// Diffs this kind between an entity of a source world and an
    /// entity of a destination world, either of which may be absent,
    /// and returns the outcome with the payload it calls for.
    pub fn diff_single(
        &self,
        src_world: &World,
        src_entity: Option<usize>,
        dst_world: &World,
        dst_entity: Option<usize>,
    ) -> (r: (DiffSingleResult, DiffPayload))
        ensures
            r.0 == spec_diff_result(
                self.spec_side_value(*src_world, src_entity),
                self.spec_side_value(*dst_world, dst_entity),
            ),
            r.1@ == spec_diff_payload(
                self.spec_side_value(*src_world, src_entity),
                self.spec_side_value(*dst_world, dst_entity),
            ),
    {
        let src = self.side_value(src_world, src_entity);
        let dst = self.side_value(dst_world, dst_entity);
        diff_values(src, dst)
    }

    /// This kind's value on one side, as `diff_single` sees it.
    fn side_value<'w>(&self, world: &'w World, entity: Option<usize>) -> (r: Option<&'w Vec<u8>>)
        ensures
            view_side(r) == self.spec_side_value(*world, entity),
    {
        match entity {
            Some(e) => {
                if e < world.entities.len() {
                    world.entities[e].get_component(self.uuid)
                } else {
                    None
                }
            },
            None => None,
        }
    }

    /// Applies a field-level delta to this kind's value on an entity.
    /// The component must be present and the payload must be a
    /// field-level delta; anything else is a programmer error.
    pub fn apply_diff(&self, payload: &DiffPayload, world: &mut World, entity: usize)
        requires
            world_wf(*old(world)),
            entity < old(world).entities@.len(),
            spec_get(old(world).entities@[entity as int].components@, self.uuid) is Some,
            payload@ is FieldDiff,
        ensures
            world_wf(*final(world)),
            final(world).entities@.len() == old(world).entities@.len(),
            forall|e: int|
                0 <= e < old(world).entities@.len() && e != entity
                    ==> final(world).entities@[e] == old(world).entities@[e],
            forall|x: ComponentTypeUuid| #[trigger]
                spec_get(final(world).entities@[entity as int].components@, x) == (if x
                    == self.uuid {
                    spec_apply_diff(
                        spec_get(old(world).entities@[entity as int].components@, self.uuid)->Some_0,
                        payload@,
                    )
                } else {
                    spec_get(old(world).entities@[entity as int].components@, x)
                }),
    {
        let current = match world.entities[entity].get_component(self.uuid) {
            Some(v) => v.clone(),
            None => {
                proof {
                    assert(false);
                }
                Vec::new()
            },
        };
        let next = apply_diff_value(&current, payload);
        let rec = &mut world.entities[entity];
        rec.add_component(self.uuid, next);
    }

    /// Copies this kind's values for a contiguous range of entities
    /// of a source world onto the same-range entities of a
    /// destination world, element by element.  Every source entity of
    /// the range must carry the kind.
    pub fn clone_components(
        &self,
        src: &World,
        range_start: usize,
        range_end: usize,
        dst: &mut World,
    )
        requires
            world_wf(*old(dst)),
            range_start <= range_end,
            range_end <= src.entities@.len(),
            range_end <= old(dst).entities@.len(),
            forall|e: int| range_start <= e < range_end ==> (#[trigger] spec_get(
                src.entities@[e].components@,
                self.uuid,
            )) is Some,
        ensures
            world_wf(*final(dst)),
            final(dst).entities@.len() == old(dst).entities@.len(),
            forall|e: int|
                0 <= e < old(dst).entities@.len() && !(range_start <= e < range_end)
                    ==> final(dst).entities@[e] == old(dst).entities@[e],
            forall|e: int, x: ComponentTypeUuid|
                range_start <= e < range_end ==> #[trigger] spec_get(
                    final(dst).entities@[e].components@,
                    x,
                ) == (if x == self.uuid {
                    spec_get(src.entities@[e].components@, self.uuid)
                } else {
                    spec_get(old(dst).entities@[e].components@, x)
                }),
    {
        let mut e = range_start;
        while e < range_end
            invariant
                world_wf(*dst),
                range_start <= e <= range_end,
                range_end <= src.entities@.len(),
                range_end <= dst.entities@.len(),
                dst.entities@.len() == old(dst).entities@.len(),
                forall|k: int| range_start <= k < range_end ==> (#[trigger] spec_get(
                    src.entities@[k].components@,
                    self.uuid,
                )) is Some,
                forall|k: int|
                    0 <= k < dst.entities@.len() && !(range_start <= k < e)
                        ==> dst.entities@[k] == old(dst).entities@[k],
                forall|k: int, x: ComponentTypeUuid|
                    range_start <= k < e ==> #[trigger] spec_get(
                        dst.entities@[k].components@,
                        x,
                    ) == (if x == self.uuid {
                        spec_get(src.entities@[k].components@, self.uuid)
                    } else {
                        spec_get(old(dst).entities@[k].components@, x)
                    }),
            decreases range_end - e,
        {
            let value = match src.entities[e].get_component(self.uuid) {
                Some(v) => v.clone(),
                None => {
                    proof {
                        assert(false);
                    }
                    Vec::new()
                },
            };
            let rec = &mut dst.entities[e];
            rec.add_component(self.uuid, value);
            e += 1;
        }
    }
}

/// The first registration carrying the UUID, if any.
pub open spec fn spec_find_by_uuid(s: Seq<ComponentRegistration>, u: ComponentTypeUuid) -> Option<
    ComponentRegistration,
>
    decreases s.len(),
{
    if s.len() == 0 {
        None
    } else if s[0].uuid == u {
        Some(s[0])
    } else {
        spec_find_by_uuid(s.drop_first(), u)
    }
}

/// The first registration carrying the runtime type token, if any.
pub open spec fn spec_find_by_ty(s: Seq<ComponentRegistration>, ty: u64) -> Option<
    ComponentRegistration,
>
    decreases s.len(),
{
    if s.len() == 0 {
        None
    } else if s[0].ty == ty {
        Some(s[0])
    } else {
        spec_find_by_ty(s.drop_first(), ty)
    }
}

/// The first registration carrying the ECS-level storage key, if any.
pub open spec fn spec_find_by_ctid(s: Seq<ComponentRegistration>, ctid: u64) -> Option<
    ComponentRegistration,
>
    decreases s.len(),
{
    if s.len() == 0 {
        None
    } else if s[0].component_type_id == ctid {
        Some(s[0])
    } else {
        spec_find_by_ctid(s.drop_first(), ctid)
    }
}

/// No two registrations share a UUID, a type token, or an ECS-level
/// storage key.
pub open spec fn registry_wf(s: Seq<ComponentRegistration>) -> bool {
    forall|i: int, j: int|
        0 <= i < j < s.len() ==> s[i].uuid != s[j].uuid && s[i].ty != s[j].ty
            && s[i].component_type_id != s[j].component_type_id
}

/// The set of registered component kinds, keyed both ways.
///
/// The set is append-only: a kind enters exactly once and is never
/// mutated or removed.
pub struct Registry {
    regs: Vec<ComponentRegistration>,
}

impl Registry {
    /// The registrations, in registration order.
    pub closed spec fn view(&self) -> Seq<ComponentRegistration> {
        self.regs@
    }

    /// An empty registry, to be populated at startup.
    pub fn new() -> (r: Registry)
        ensures
            r@.len() == 0,
            registry_wf(r@),
    {
        Registry { regs: Vec::new() }
    }

    /// Submits one component kind.  A kind whose UUID, type token or
    /// ECS-level storage key is already present is refused, and the
    /// set is unchanged: every kind is registered exactly once.
    pub fn register(&mut self, reg: ComponentRegistration) -> (r: bool)
        requires
            registry_wf(old(self)@),
        ensures
            registry_wf(final(self)@),
            r == (spec_find_by_uuid(old(self)@, reg.uuid) is None && spec_find_by_ty(
                old(self)@,
                reg.ty,
            ) is None && spec_find_by_ctid(old(self)@, reg.component_type_id) is None),
            r ==> final(self)@ == old(self)@.push(reg),
            !r ==> final(self)@ == old(self)@,
    {
        let dup = {
            let by_uuid = self.registration_by_uuid(&reg.uuid);
            by_uuid.is_some()
        } || {
            let by_ty = self.registration_by_ty(reg.ty);
            by_ty.is_some()
        } || {
            let by_ctid = self.registration_by_component_type_id(reg.component_type_id);
            by_ctid.is_some()
        };
        if dup {
            false
        } else {
            self.regs.push(reg);
            proof {
                let s0 = old(self)@;
                assert forall|i: int, j: int| 0 <= i < j < self@.len() implies self@[i].uuid
                    != self@[j].uuid && self@[i].ty != self@[j].ty && self@[i].component_type_id
                    != self@[j].component_type_id by {
                    if j == s0.len() {
                        lemma_find_by_uuid_absent(s0, reg.uuid, i);
                        lemma_find_by_ty_absent(s0, reg.ty, i);
                        lemma_find_by_ctid_absent(s0, reg.component_type_id, i);
                    }
                }
            }
            true
        }
    }

    /// The number of registered kinds.
    pub fn len(&self) -> (r: usize)
        ensures
            r == self@.len(),
    {
        self.regs.len()
    }

    /// The registration at one index, in registration order.
    pub fn get(&self, i: usize) -> (r: &ComponentRegistration)
        requires
            i < self@.len(),
        ensures
            *r == self@[i as int],
    {
        &self.regs[i]
    }

    /// The registration of the kind with this stable UUID, if any.
    pub fn registration_by_uuid(&self, u: &ComponentTypeUuid) -> (r: Option<&ComponentRegistration>)
        ensures
            (match r {
                Some(reg) => spec_find_by_uuid(self@, *u) == Some(*reg),
                None => spec_find_by_uuid(self@, *u) is None,
            }),
    {
        let n = self.regs.len();
        let mut i: usize = 0;
        proof {
            assert(self@.skip(0) =~= self@);
        }
        while i < n
            invariant
                n == self@.len(),
                i <= n,
                spec_find_by_uuid(self@, *u) == spec_find_by_uuid(self@.skip(i as int), *u),
            decreases n - i,
        {
            proof {
                assert(self@.skip(i as int).drop_first() =~= self@.skip(i as int + 1));
                assert(self@.skip(i as int)[0] == self@[i as int]);
            }
            if self.regs[i].uuid == *u {
                return Some(&self.regs[i]);
            }
            i += 1;
        }
        None
    }

    /// The registration of the kind with this runtime type token, if
    /// any.
    pub fn registration_by_ty(&self, ty: u64) -> (r: Option<&ComponentRegistration>)
        ensures
            (match r {
                Some(reg) => spec_find_by_ty(self@, ty) == Some(*reg),
                None => spec_find_by_ty(self@, ty) is None,
            }),
    {
        let n = self.regs.len();
        let mut i: usize = 0;
        proof {
            assert(self@.skip(0) =~= self@);
        }
        while i < n
            invariant
                n == self@.len(),
                i <= n,
                spec_find_by_ty(self@, ty) == spec_find_by_ty(self@.skip(i as int), ty),
            decreases n - i,
        {
            proof {
                assert(self@.skip(i as int).drop_first() =~= self@.skip(i as int + 1));
                assert(self@.skip(i as int)[0] == self@[i as int]);
            }
            if self.regs[i].ty == ty {
                return Some(&self.regs[i]);
            }
            i += 1;
        }
        None
    }

    /// The registration of the kind with this ECS-level storage key,
    /// if any.
    pub fn registration_by_component_type_id(&self, ctid: u64) -> (r: Option<
        &ComponentRegistration,
    >)
        ensures
            (match r {
                Some(reg) => spec_find_by_ctid(self@, ctid) == Some(*reg),
                None => spec_find_by_ctid(self@, ctid) is None,
            }),
    {
        let n = self.regs.len();
        let mut i: usize = 0;
        proof {
            assert(self@.skip(0) =~= self@);
        }
        while i < n
            invariant
                n == self@.len(),
                i <= n,
                spec_find_by_ctid(self@, ctid) == spec_find_by_ctid(self@.skip(i as int), ctid),
            decreases n - i,
        {
            proof {
                assert(self@.skip(i as int).drop_first() =~= self@.skip(i as int + 1));
                assert(self@.skip(i as int)[0] == self@[i as int]);
            }
            if self.regs[i].component_type_id == ctid {
                return Some(&self.regs[i]);
            }
            i += 1;
        }
        None
    }
}

/// Where a storage key looks up to nothing, no entry carries it.
proof fn lemma_find_by_ctid_absent(s: Seq<ComponentRegistration>, ctid: u64, i: int)
    requires
        spec_find_by_ctid(s, ctid) is None,
        0 <= i < s.len(),
    ensures
        s[i].component_type_id != ctid,
    decreases s.len(),
{
    if i > 0 {
        lemma_find_by_ctid_absent(s.drop_first(), ctid, i - 1);
    }
}

/// Where a UUID looks up to nothing, no entry carries it.
proof fn lemma_find_by_uuid_absent(s: Seq<ComponentRegistration>, u: ComponentTypeUuid, i: int)
    requires
        spec_find_by_uuid(s, u) is None,
        0 <= i < s.len(),
    ensures
        s[i].uuid != u,
    decreases s.len(),
{
    if i > 0 {
        lemma_find_by_uuid_absent(s.drop_first(), u, i - 1);
    }
}

/// Where a type token looks up to nothing, no entry carries it.
proof fn lemma_find_by_ty_absent(s: Seq<ComponentRegistration>, ty: u64, i: int)
    requires
        spec_find_by_ty(s, ty) is None,
        0 <= i < s.len(),
    ensures
        s[i].ty != ty,
    decreases s.len(),
{
    if i > 0 {
        lemma_find_by_ty_absent(s.drop_first(), ty, i - 1);
    }
}

/// A found registration sits in the sequence.
proof fn lemma_find_by_uuid_present(s: Seq<ComponentRegistration>, u: ComponentTypeUuid)
    requires
        spec_find_by_uuid(s, u) is Some,
    ensures
        exists|i: int|
            0 <= i < s.len() && s[i] == spec_find_by_uuid(s, u)->Some_0 && #[trigger] s[i].uuid
                == u,
    decreases s.len(),
{
    if s.len() > 0 && s[0].uuid != u {
        lemma_find_by_uuid_present(s.drop_first(), u);
        let j = choose|j: int|
            0 <= j < s.drop_first().len() && s.drop_first()[j] == spec_find_by_uuid(
                s.drop_first(),
                u,
            )->Some_0 && #[trigger] s.drop_first()[j].uuid == u;
        assert(s[j + 1] == s.drop_first()[j]);
    }
}

/// A match at one index is the first match when no earlier entry
/// carries the token.
proof fn lemma_find_by_ty_at(s: Seq<ComponentRegistration>, j: int)
    requires
        0 <= j < s.len(),
        forall|i: int| 0 <= i < j ==> s[i].ty != s[j].ty,
    ensures
        spec_find_by_ty(s, s[j].ty) == Some(s[j]),
    decreases j,
{
    if j > 0 {
        assert(s.drop_first()[j - 1] == s[j]);
        lemma_find_by_ty_at(s.drop_first(), j - 1);
    }
}

/// Registry uniqueness: in a well-formed registry, the registration a
/// UUID looks up to is the very one its runtime type token looks up
/// to; in particular both name the same ECS-level storage key.  And by
/// well-formedness itself, no two registrations share a UUID.
pub proof fn lemma_registry_uniqueness(s: Seq<ComponentRegistration>, u: ComponentTypeUuid)
    requires
        registry_wf(s),
        spec_find_by_uuid(s, u) is Some,
    ensures
        spec_find_by_ty(s, spec_find_by_uuid(s, u)->Some_0.ty) == spec_find_by_uuid(s, u),
        spec_find_by_ty(
            s,
            spec_find_by_uuid(s, u)->Some_0.ty,
        )->Some_0.component_type_id == spec_find_by_uuid(s, u)->Some_0.component_type_id,
{
    let reg = spec_find_by_uuid(s, u)->Some_0;
    lemma_find_by_uuid_present(s, u);
    let j = choose|j: int| 0 <= j < s.len() && s[j] == reg && #[trigger] s[j].uuid == u;
    assert forall|i: int| 0 <= i < j implies s[i].ty != s[j].ty by {}
    lemma_find_by_ty_at(s, j);
}

} // verus!
