//! The cooked prefab: a fully flattened world and its entity identity
//! map, round-tripped through a self-describing document.
//!
//! The wire form is a struct with exactly one field, `world`, holding
//! the sequence of entities; each entity is a struct `{id, components}`
//! and each component a struct `{type, data}`, all UUIDs as their
//! 16-byte values and all component values in their canonical wire
//! form.  Re-reading what was written yields a world whose
//! entity-identity-to-components mapping is the one written.

use vstd::prelude::*;

use crate::error::FieldName;
use crate::error::ParseCause;
use crate::error::PrefabError;
use crate::ids::uuid_bytes;
use crate::ids::ComponentTypeUuid;
use crate::ids::EntityUuid;
use crate::doc::spec_node_uuid;
use crate::doc::Node;
use crate::registry::spec_find_by_uuid;
use crate::registry::Registry;
use crate::world::rec_wf;
use crate::world::world_wf;
use crate::world::EntityRecord;
use crate::world::World;

verus! {

/// A flattened world together with the stable identities of its
/// entities.
#[derive(Debug)]
pub struct CookedPrefab {
    pub world: World,
    /// Stable identity to entity handle, in materialization order.
    pub entities: Vec<(EntityUuid, usize)>,
}

/// Components as kind and wire-form bytes.
pub open spec fn comps_view(s: Seq<(ComponentTypeUuid, Vec<u8>)>) -> Seq<(ComponentTypeUuid, Seq<u8>)> {
    s.map_values(|p: (ComponentTypeUuid, Vec<u8>)| (p.0, p.1@))
}

/// The components of one entity, as kind and wire-form bytes.
pub open spec fn entity_view(rec: EntityRecord) -> Seq<(ComponentTypeUuid, Seq<u8>)> {
    comps_view(rec.components@)
}

/// The whole world, entity by entity.
pub open spec fn world_view(w: World) -> Seq<Seq<(ComponentTypeUuid, Seq<u8>)>> {
    w.entities@.map_values(|rec: EntityRecord| entity_view(rec))
}

/// The stable identity mapped to a handle, if any.
pub open spec fn spec_uuid_of(s: Seq<(EntityUuid, usize)>, h: int) -> Option<EntityUuid>
    decreases s.len(),
{
    if s.len() == 0 {
        None
    } else if s[0].1 == h {
        Some(s[0].0)
    } else {
        spec_uuid_of(s.drop_first(), h)
    }
}

/// Every mapped handle resolves to a live entity of the world.
pub open spec fn cooked_wf(cp: CookedPrefab) -> bool {
    &&& world_wf(cp.world)
    &&& forall|i: int| 0 <= i < cp.entities@.len() ==> (#[trigger] cp.entities@[i].1)
        < cp.world.entities@.len()
}

/// One component, on the wire.
pub open spec fn comp_doc(n: Node, c: (ComponentTypeUuid, Seq<u8>)) -> bool {
    &&& n matches Node::Fields(f)
    &&& f@.len() == 2
    &&& f@[0].0@ == "type"@
    &&& f@[0].1 matches Node::Bytes(b)
    &&& b@ == uuid_bytes(c.0)
    &&& f@[1].0@ == "data"@
    &&& f@[1].1 matches Node::Bytes(d)
    &&& d@ == c.1
}

/// One entity, on the wire.
pub open spec fn entity_doc(n: Node, u: EntityUuid, comps: Seq<(ComponentTypeUuid, Seq<u8>)>) -> bool {
    &&& n matches Node::Fields(f)
    &&& f@.len() == 2
    &&& f@[0].0@ == "id"@
    &&& f@[0].1 matches Node::Bytes(b)
    &&& b@ == uuid_bytes(u)
    &&& f@[1].0@ == "components"@
    &&& f@[1].1 matches Node::List(items)
    &&& items@.len() == comps.len()
    &&& forall|i: int| 0 <= i < comps.len() ==> comp_doc(#[trigger] items@[i], comps[i])
}

/// A whole cooked prefab, on the wire: one field `world` holding the
/// entities in handle order under the identities `uuids`.
pub open spec fn cooked_doc(
    doc: Node,
    w: Seq<Seq<(ComponentTypeUuid, Seq<u8>)>>,
    uuids: Seq<EntityUuid>,
) -> bool {
    &&& doc matches Node::Fields(f)
    &&& f@.len() == 1
    &&& f@[0].0@ == "world"@
    &&& f@[0].1 matches Node::List(ents)
    &&& ents@.len() == w.len()
    &&& uuids.len() == w.len()
    &&& forall|i: int| 0 <= i < w.len() ==> entity_doc(#[trigger] ents@[i], uuids[i], w[i])
}

/// What serialization promises: the document carries the world under
/// some identity per entity, and wherever the entity map names an
/// identity, that one.  An entity the map does not name is written
/// under a fresh identity.
pub open spec fn cooked_serialization(cp: CookedPrefab, doc: Node, uuids: Seq<EntityUuid>) -> bool {
    &&& cooked_doc(doc, world_view(cp.world), uuids)
    &&& forall|h: int|
        0 <= h < cp.world.entities@.len() && (#[trigger] spec_uuid_of(cp.entities@, h)) is Some
            ==> uuids[h] == spec_uuid_of(cp.entities@, h)->Some_0
}

impl CookedPrefab {
    /// The stable identity mapped to a handle, if any.
    pub fn uuid_for_handle(&self, h: usize) -> (r: Option<EntityUuid>)
        ensures
            r == spec_uuid_of(self.entities@, h as int),
    {
        let n = self.entities.len();
        let mut i: usize = 0;
        proof {
            assert(self.entities@.skip(0) =~= self.entities@);
        }
        while i < n
            invariant
                n == self.entities@.len(),
                i <= n,
                spec_uuid_of(self.entities@, h as int) == spec_uuid_of(
                    self.entities@.skip(i as int),
                    h as int,
                ),
            decreases n - i,
        {
            proof {
                assert(self.entities@.skip(i as int).drop_first() =~= self.entities@.skip(
                    i as int + 1,
                ));
                assert(self.entities@.skip(i as int)[0] == self.entities@[i as int]);
            }
            if self.entities[i].1 == h {
                return Some(self.entities[i].0);
            }
            i += 1;
        }
        None
    }

    /// Writes this cooked prefab as one document: a struct with the
    /// single field `world`.  Every entity is written in handle order
    /// under its mapped identity; an unmapped entity is written under
    /// a fresh identity.
    pub fn serialize(&self) -> (r: Node)
        ensures
            exists|uuids: Seq<EntityUuid>| #[trigger] cooked_serialization(*self, r, uuids),
    {
        let n = self.world.entities.len();
        let mut ents: Vec<Node> = Vec::new();
        let ghost mut uuids: Seq<EntityUuid> = Seq::empty();
        let mut i: usize = 0;
        while i < n
            invariant
                n == self.world.entities@.len(),
                i <= n,
                ents@.len() == i,
                uuids.len() == i,
                forall|k: int| 0 <= k < i ==> entity_doc(
                    #[trigger] ents@[k],
                    uuids[k],
                    world_view(self.world)[k],
                ),
                forall|h: int| 0 <= h < i && (#[trigger] spec_uuid_of(self.entities@, h)) is Some
                    ==> uuids[h] == spec_uuid_of(self.entities@, h)->Some_0,
            decreases n - i,
        {
            let u = match self.uuid_for_handle(i) {
                Some(u) => u,
                None => crate::ids::fresh_uuid(),
            };
            let rec = &self.world.entities[i];
            let m = rec.components.len();
            let mut comps: Vec<Node> = Vec::new();
            let mut j: usize = 0;
            while j < m
                invariant
                    m == rec.components@.len(),
                    j <= m,
                    comps@.len() == j,
                    forall|k: int| 0 <= k < j ==> comp_doc(
                        #[trigger] comps@[k],
                        entity_view(*rec)[k],
                    ),
                decreases m - j,
            {
                let t = rec.components[j].0;
                let v = rec.components[j].1.clone();
                let mut cf: Vec<(String, Node)> = Vec::new();
                cf.push(("type".to_owned(), Node::Bytes(t.to_bytes())));
                cf.push(("data".to_owned(), Node::Bytes(v)));
                comps.push(Node::Fields(cf));
                proof {
                    assert(comp_doc(comps@[j as int], entity_view(*rec)[j as int]));
                }
                j += 1;
            }
            let mut ef: Vec<(String, Node)> = Vec::new();
            ef.push(("id".to_owned(), Node::Bytes(u.to_bytes())));
            ef.push(("components".to_owned(), Node::List(comps)));
            ents.push(Node::Fields(ef));
            proof {
                uuids = uuids.push(u);
                assert(world_view(self.world)[i as int] == entity_view(
                    self.world.entities@[i as int],
                ));
                assert(entity_doc(ents@[i as int], u, world_view(self.world)[i as int]));
            }
            i += 1;
        }
        let mut f: Vec<(String, Node)> = Vec::new();
        f.push(("world".to_owned(), Node::List(ents)));
        let r = Node::Fields(f);
        proof {
            assert(cooked_serialization(*self, r, uuids));
        }
        r
    }
}

/// What one component node decodes to: its kind — which must be
/// registered — and its wire-form bytes.
pub open spec fn spec_decode_comp(n: Node, regs: Seq<crate::registry::ComponentRegistration>) -> Result<
    (ComponentTypeUuid, Seq<u8>),
    PrefabError,
> {
    match n {
        Node::Fields(f) => if f@.len() == 2 && f@[0].0@ == "type"@ && f@[1].0@ == "data"@ {
            match spec_node_uuid(f@[0].1) {
                Some(t) => if spec_find_by_uuid(regs, t) is Some {
                    match f@[1].1 {
                        Node::Bytes(d) => Ok((t, d@)),
                        _ => Err(PrefabError::PayloadParse(ParseCause::InvalidPayload)),
                    }
                } else {
                    Err(PrefabError::UnknownComponentType(t))
                },
                None => Err(PrefabError::PayloadParse(ParseCause::InvalidUuid)),
            }
        } else {
            Err(PrefabError::PayloadParse(ParseCause::InvalidPayload))
        },
        _ => Err(PrefabError::PayloadParse(ParseCause::ExpectedFields)),
    }
}

/// Whether some component of this kind is already present.
pub open spec fn view_has_type(s: Seq<(ComponentTypeUuid, Seq<u8>)>, t: ComponentTypeUuid) -> bool {
    exists|i: int| 0 <= i < s.len() && (#[trigger] s[i]).0 == t
}

/// Component nodes in order, onto what was already decoded; a kind met
/// twice within one entity is refused.
pub open spec fn spec_decode_comps(
    items: Seq<Node>,
    regs: Seq<crate::registry::ComponentRegistration>,
    acc: Seq<(ComponentTypeUuid, Seq<u8>)>,
) -> Result<Seq<(ComponentTypeUuid, Seq<u8>)>, PrefabError>
    decreases items.len(),
{
    if items.len() == 0 {
        Ok(acc)
    } else {
        match spec_decode_comp(items[0], regs) {
            Ok(c) => if view_has_type(acc, c.0) {
                Err(PrefabError::PayloadParse(ParseCause::InvalidPayload))
            } else {
                spec_decode_comps(items.drop_first(), regs, acc.push(c))
            },
            Err(e) => Err(e),
        }
    }
}

/// What one entity node decodes to: its stable identity and its
/// components.
pub open spec fn spec_decode_entity(n: Node, regs: Seq<crate::registry::ComponentRegistration>) -> Result<
    (EntityUuid, Seq<(ComponentTypeUuid, Seq<u8>)>),
    PrefabError,
> {
    match n {
        Node::Fields(f) => if f@.len() == 2 && f@[0].0@ == "id"@ && f@[1].0@ == "components"@ {
            match spec_node_uuid(f@[0].1) {
                Some(u) => match f@[1].1 {
                    Node::List(items) => match spec_decode_comps(items@, regs, Seq::empty()) {
                        Ok(comps) => Ok((u, comps)),
                        Err(e) => Err(e),
                    },
                    _ => Err(PrefabError::PayloadParse(ParseCause::ExpectedList)),
                },
                None => Err(PrefabError::PayloadParse(ParseCause::InvalidUuid)),
            }
        } else {
            Err(PrefabError::PayloadParse(ParseCause::InvalidPayload))
        },
        _ => Err(PrefabError::PayloadParse(ParseCause::ExpectedFields)),
    }
}

/// Entity nodes in order, onto what was already decoded.
pub open spec fn spec_decode_entities(
    items: Seq<Node>,
    regs: Seq<crate::registry::ComponentRegistration>,
    accw: Seq<Seq<(ComponentTypeUuid, Seq<u8>)>>,
    accu: Seq<EntityUuid>,
) -> Result<(Seq<Seq<(ComponentTypeUuid, Seq<u8>)>>, Seq<EntityUuid>), PrefabError>
    decreases items.len(),
{
    if items.len() == 0 {
        Ok((accw, accu))
    } else {
        match spec_decode_entity(items[0], regs) {
            Ok(e) => spec_decode_entities(
                items.drop_first(),
                regs,
                accw.push(e.1),
                accu.push(e.0),
            ),
            Err(e) => Err(e),
        }
    }
}

/// What a cooked prefab document decodes to: the entities' components
/// and their stable identities, in document order.
pub open spec fn spec_decode_cooked(doc: Node, regs: Seq<crate::registry::ComponentRegistration>) -> Result<
    (Seq<Seq<(ComponentTypeUuid, Seq<u8>)>>, Seq<EntityUuid>),
    PrefabError,
> {
    match doc {
        Node::Fields(f) => if f@.len() == 1 && f@[0].0@ == "world"@ {
            match f@[0].1 {
                Node::List(ents) => spec_decode_entities(ents@, regs, Seq::empty(), Seq::empty()),
                _ => Err(PrefabError::PayloadParse(ParseCause::ExpectedList)),
            }
        } else {
            Err(PrefabError::MissingField(FieldName::World))
        },
        _ => Err(PrefabError::PayloadParse(ParseCause::ExpectedFields)),
    }
}

/// The stable identities, in map order.
pub open spec fn uuid_seq(s: Seq<(EntityUuid, usize)>) -> Seq<EntityUuid> {
    s.map_values(|p: (EntityUuid, usize)| p.0)
}

/// Whether a kind equal to `t` is among the components.
fn has_type(comps: &Vec<(ComponentTypeUuid, Vec<u8>)>, t: ComponentTypeUuid) -> (r: bool)
    ensures
        r == view_has_type(comps_view(comps@), t),
{
    let n = comps.len();
    let mut i: usize = 0;
    while i < n
        invariant
            n == comps@.len(),
            i <= n,
            forall|k: int| 0 <= k < i ==> (#[trigger] comps@[k]).0 != t,
        decreases n - i,
    {
        if comps[i].0 == t {
            proof {
                assert(comps_view(comps@)[i as int].0 == t);
            }
            return true;
        }
        i += 1;
    }
    proof {
        assert forall|k: int| 0 <= k < comps_view(comps@).len() implies (#[trigger] comps_view(
            comps@,
        )[k]).0 != t by {
            assert(comps_view(comps@)[k].0 == comps@[k].0);
        }
    }
    false
}

/// Decodes one component node.
fn decode_comp(n: &Node, registry: &Registry) -> (r: Result<(ComponentTypeUuid, Vec<u8>), PrefabError>)
    ensures
        (match r {
            Ok(c) => spec_decode_comp(*n, registry@) == Ok::<
                (ComponentTypeUuid, Seq<u8>),
                PrefabError,
            >((c.0, c.1@)),
            Err(e) => spec_decode_comp(*n, registry@) == Err::<
                (ComponentTypeUuid, Seq<u8>),
                PrefabError,
            >(e),
        }),
{
    let f = match n {
        Node::Fields(f) => f,
        _ => {
            return Err(PrefabError::PayloadParse(ParseCause::ExpectedFields));
        },
    };
    if !(f.len() == 2 && crate::doc::key_is(&f[0].0, "type") && crate::doc::key_is(&f[1].0, "data")) {
        return Err(PrefabError::PayloadParse(ParseCause::InvalidPayload));
    }
    let t = match crate::doc::node_uuid(&f[0].1) {
        Some(t) => t,
        None => {
            return Err(PrefabError::PayloadParse(ParseCause::InvalidUuid));
        },
    };
    if registry.registration_by_uuid(&t).is_none() {
        return Err(PrefabError::UnknownComponentType(t));
    }
    match &f[1].1 {
        Node::Bytes(d) => Ok((t, d.clone())),
        _ => Err(PrefabError::PayloadParse(ParseCause::InvalidPayload)),
    }
}

/// Decodes one entity node into its identity and its record.
fn decode_entity(n: &Node, registry: &Registry) -> (r: Result<(EntityUuid, EntityRecord), PrefabError>)
    ensures
        (match r {
            Ok(e) => spec_decode_entity(*n, registry@) == Ok::<
                (EntityUuid, Seq<(ComponentTypeUuid, Seq<u8>)>),
                PrefabError,
            >((e.0, entity_view(e.1))) && rec_wf(e.1.components@),
            Err(e) => spec_decode_entity(*n, registry@) == Err::<
                (EntityUuid, Seq<(ComponentTypeUuid, Seq<u8>)>),
                PrefabError,
            >(e),
        }),
{
    let f = match n {
        Node::Fields(f) => f,
        _ => {
            return Err(PrefabError::PayloadParse(ParseCause::ExpectedFields));
        },
    };
    if !(f.len() == 2 && crate::doc::key_is(&f[0].0, "id") && crate::doc::key_is(
        &f[1].0,
        "components",
    )) {
        return Err(PrefabError::PayloadParse(ParseCause::InvalidPayload));
    }
    let u = match crate::doc::node_uuid(&f[0].1) {
        Some(u) => u,
        None => {
            return Err(PrefabError::PayloadParse(ParseCause::InvalidUuid));
        },
    };
    let items = match &f[1].1 {
        Node::List(items) => items,
        _ => {
            return Err(PrefabError::PayloadParse(ParseCause::ExpectedList));
        },
    };
    let mut comps: Vec<(ComponentTypeUuid, Vec<u8>)> = Vec::new();
    let m = items.len();
    let mut j: usize = 0;
    proof {
        assert(items@.skip(0) =~= items@);
        assert(comps_view(comps@) =~= Seq::<(ComponentTypeUuid, Seq<u8>)>::empty());
    }
    while j < m
        invariant
            *n == Node::Fields(*f),
            f@.len() == 2,
            f@[0].0@ == "id"@,
            f@[1].0@ == "components"@,
            spec_node_uuid(f@[0].1) == Some(u),
            f@[1].1 == Node::List(*items),
            m == items@.len(),
            j <= m,
            rec_wf(comps@),
            spec_decode_comps(items@, registry@, Seq::empty()) == spec_decode_comps(
                items@.skip(j as int),
                registry@,
                comps_view(comps@),
            ),
        decreases m - j,
    {
        proof {
            assert(items@.skip(j as int).drop_first() =~= items@.skip(j as int + 1));
            assert(items@.skip(j as int)[0] == items@[j as int]);
        }
        match decode_comp(&items[j], registry) {
            Ok(c) => {
                if has_type(&comps, c.0) {
                    return Err(PrefabError::PayloadParse(ParseCause::InvalidPayload));
                }
                let ghost before = comps@;
                comps.push(c);
                proof {
                    assert(comps_view(comps@) =~= comps_view(before).push(
                        (comps@[before.len() as int].0, comps@[before.len() as int].1@),
                    ));
                    assert forall|i1: int, j1: int| 0 <= i1 < j1 < comps@.len() implies comps@[i1].0
                        != comps@[j1].0 by {
                        if j1 == comps@.len() - 1 {
                            assert(comps_view(before)[i1].0 == comps@[i1].0);
                        }
                    }
                }
            },
            Err(e) => {
                return Err(e);
            },
        }
        j += 1;
    }
    proof {
        assert(spec_decode_comps(items@.skip(m as int), registry@, comps_view(comps@)) == Ok::<
            Seq<(ComponentTypeUuid, Seq<u8>)>,
            PrefabError,
        >(comps_view(comps@)));
    }
    Ok((u, EntityRecord { components: comps }))
}

impl CookedPrefab {
    /// Reads a cooked prefab back from its wire form: a fresh world
    /// is materialized entity by entity in document order, and the
    /// identity map records each entity's stable UUID against its new
    /// handle.  Every component kind must be registered.
    pub fn deserialize(doc: &Node, registry: &Registry) -> (r: Result<CookedPrefab, PrefabError>)
        ensures
            (match r {
                Ok(cp) => {
                    &&& spec_decode_cooked(*doc, registry@) == Ok::<
                        (Seq<Seq<(ComponentTypeUuid, Seq<u8>)>>, Seq<EntityUuid>),
                        PrefabError,
                    >((world_view(cp.world), uuid_seq(cp.entities@)))
                    &&& cooked_wf(cp)
                    &&& cp.entities@.len() == cp.world.entities@.len()
                    &&& forall|k: int| 0 <= k < cp.entities@.len() ==> (#[trigger] cp.entities@[k]).1
                        == k
                },
                Err(e) => spec_decode_cooked(*doc, registry@) == Err::<
                    (Seq<Seq<(ComponentTypeUuid, Seq<u8>)>>, Seq<EntityUuid>),
                    PrefabError,
                >(e),
            }),
    {
        let f = match doc {
            Node::Fields(f) => f,
            _ => {
                return Err(PrefabError::PayloadParse(ParseCause::ExpectedFields));
            },
        };
        if !(f.len() == 1 && crate::doc::key_is(&f[0].0, "world")) {
            return Err(PrefabError::MissingField(FieldName::World));
        }
        let ents = match &f[0].1 {
            Node::List(ents) => ents,
            _ => {
                return Err(PrefabError::PayloadParse(ParseCause::ExpectedList));
            },
        };
        let mut world = World { entities: Vec::new() };
        let mut map: Vec<(EntityUuid, usize)> = Vec::new();
        let n = ents.len();
        let mut i: usize = 0;
        proof {
            assert(ents@.skip(0) =~= ents@);
            assert(world_view(world) =~= Seq::<Seq<(ComponentTypeUuid, Seq<u8>)>>::empty());
            assert(uuid_seq(map@) =~= Seq::<EntityUuid>::empty());
        }
        while i < n
            invariant
                *doc == Node::Fields(*f),
                f@.len() == 1,
                f@[0].0@ == "world"@,
                f@[0].1 == Node::List(*ents),
                n == ents@.len(),
                i <= n,
                world.entities@.len() == i,
                map@.len() == i,
                world_wf(world),
                forall|k: int| 0 <= k < i ==> (#[trigger] map@[k]).1 == k,
                spec_decode_entities(ents@, registry@, Seq::empty(), Seq::empty())
                    == spec_decode_entities(
                    ents@.skip(i as int),
                    registry@,
                    world_view(world),
                    uuid_seq(map@),
                ),
            decreases n - i,
        {
            proof {
                assert(ents@.skip(i as int).drop_first() =~= ents@.skip(i as int + 1));
                assert(ents@.skip(i as int)[0] == ents@[i as int]);
            }
            match decode_entity(&ents[i], registry) {
                Ok(e) => {
                    let ghost w0 = world.entities@;
                    let ghost m0 = map@;
                    map.push((e.0, i));
                    world.entities.push(e.1);
                    proof {
                        assert(world_view(world) =~= w0.map_values(
                            |rec: EntityRecord| entity_view(rec),
                        ).push(entity_view(world.entities@[w0.len() as int])));
                        assert(uuid_seq(map@) =~= uuid_seq(m0).push(map@[m0.len() as int].0));
                    }
                },
                Err(e) => {
                    return Err(e);
                },
            }
            i += 1;
        }
        proof {
            assert(spec_decode_entities(
                ents@.skip(n as int),
                registry@,
                world_view(world),
                uuid_seq(map@),
            ) == Ok::<(Seq<Seq<(ComponentTypeUuid, Seq<u8>)>>, Seq<EntityUuid>), PrefabError>(
                (world_view(world), uuid_seq(map@)),
            ));
        }
        Ok(CookedPrefab { world, entities: map })
    }
}

/// Every component kind of the world is registered.
pub open spec fn world_registered(
    w: Seq<Seq<(ComponentTypeUuid, Seq<u8>)>>,
    regs: Seq<crate::registry::ComponentRegistration>,
) -> bool {
    forall|e: int, i: int|
        0 <= e < w.len() && 0 <= i < w[e].len() ==> (#[trigger] spec_find_by_uuid(
            regs,
            w[e][i].0,
        )) is Some
}

/// Each component kind appears at most once.
pub open spec fn view_wf(s: Seq<(ComponentTypeUuid, Seq<u8>)>) -> bool {
    forall|i: int, j: int| 0 <= i < j < s.len() ==> s[i].0 != s[j].0
}

/// A component written on the wire reads back as itself, provided its
/// kind is registered.
proof fn lemma_comp_round(
    n: Node,
    c: (ComponentTypeUuid, Seq<u8>),
    regs: Seq<crate::registry::ComponentRegistration>,
)
    requires
        comp_doc(n, c),
        spec_find_by_uuid(regs, c.0) is Some,
    ensures
        spec_decode_comp(n, regs) == Ok::<(ComponentTypeUuid, Seq<u8>), PrefabError>(c),
{
    let f = n->Fields_0;
    crate::ids::lemma_uuid_bytes_round(c.0);
    assert(spec_node_uuid(f@[0].1) == Some(c.0));
}

/// Components written on the wire read back as themselves, onto what
/// was already read.
proof fn lemma_comps_round(
    items: Seq<Node>,
    comps: Seq<(ComponentTypeUuid, Seq<u8>)>,
    regs: Seq<crate::registry::ComponentRegistration>,
    acc: Seq<(ComponentTypeUuid, Seq<u8>)>,
)
    requires
        items.len() == comps.len(),
        forall|i: int| 0 <= i < comps.len() ==> comp_doc(#[trigger] items[i], comps[i]),
        forall|i: int| 0 <= i < comps.len() ==> (#[trigger] spec_find_by_uuid(
            regs,
            comps[i].0,
        )) is Some,
        view_wf(acc + comps),
    ensures
        spec_decode_comps(items, regs, acc) == Ok::<Seq<(ComponentTypeUuid, Seq<u8>)>, PrefabError>(
            acc + comps,
        ),
    decreases items.len(),
{
    if items.len() == 0 {
        assert(acc + comps =~= acc);
    } else {
        lemma_comp_round(items[0], comps[0], regs);
        assert(!view_has_type(acc, comps[0].0)) by {
            if view_has_type(acc, comps[0].0) {
                let i = choose|i: int| 0 <= i < acc.len() && (#[trigger] acc[i]).0 == comps[0].0;
                assert((acc + comps)[i] == acc[i]);
                assert((acc + comps)[acc.len() as int] == comps[0]);
            }
        }
        let acc2 = acc.push(comps[0]);
        assert(acc2 + comps.drop_first() =~= acc + comps);
        assert forall|i: int| 0 <= i < comps.drop_first().len() implies comp_doc(
            #[trigger] items.drop_first()[i],
            comps.drop_first()[i],
        ) && (spec_find_by_uuid(regs, comps.drop_first()[i].0)) is Some by {
            assert(items.drop_first()[i] == items[i + 1]);
            assert(comps.drop_first()[i] == comps[i + 1]);
        }
        lemma_comps_round(items.drop_first(), comps.drop_first(), regs, acc2);
    }
}

/// An entity written on the wire reads back as itself.
proof fn lemma_entity_round(
    n: Node,
    u: EntityUuid,
    comps: Seq<(ComponentTypeUuid, Seq<u8>)>,
    regs: Seq<crate::registry::ComponentRegistration>,
)
    requires
        entity_doc(n, u, comps),
        forall|i: int| 0 <= i < comps.len() ==> (#[trigger] spec_find_by_uuid(
            regs,
            comps[i].0,
        )) is Some,
        view_wf(comps),
    ensures
        spec_decode_entity(n, regs) == Ok::<
            (EntityUuid, Seq<(ComponentTypeUuid, Seq<u8>)>),
            PrefabError,
        >((u, comps)),
{
    let f = n->Fields_0;
    crate::ids::lemma_uuid_bytes_round(u);
    assert(spec_node_uuid(f@[0].1) == Some(u));
    let items = f@[1].1->List_0;
    assert(Seq::<(ComponentTypeUuid, Seq<u8>)>::empty() + comps =~= comps);
    lemma_comps_round(items@, comps, regs, Seq::empty());
}

/// Entities written on the wire read back as themselves, onto what was
/// already read.
proof fn lemma_entities_round(
    items: Seq<Node>,
    w: Seq<Seq<(ComponentTypeUuid, Seq<u8>)>>,
    uuids: Seq<EntityUuid>,
    regs: Seq<crate::registry::ComponentRegistration>,
    accw: Seq<Seq<(ComponentTypeUuid, Seq<u8>)>>,
    accu: Seq<EntityUuid>,
)
    requires
        items.len() == w.len(),
        uuids.len() == w.len(),
        forall|i: int| 0 <= i < w.len() ==> entity_doc(#[trigger] items[i], uuids[i], w[i]),
        world_registered(w, regs),
        forall|e: int| 0 <= e < w.len() ==> view_wf(#[trigger] w[e]),
    ensures
        spec_decode_entities(items, regs, accw, accu) == Ok::<
            (Seq<Seq<(ComponentTypeUuid, Seq<u8>)>>, Seq<EntityUuid>),
            PrefabError,
        >((accw + w, accu + uuids)),
    decreases items.len(),
{
    if items.len() == 0 {
        assert(accw + w =~= accw);
        assert(accu + uuids =~= accu);
    } else {
        assert forall|i: int| 0 <= i < w[0].len() implies (#[trigger] spec_find_by_uuid(
            regs,
            w[0][i].0,
        )) is Some by {
            assert(world_registered(w, regs));
        }
        lemma_entity_round(items[0], uuids[0], w[0], regs);
        assert(accw.push(w[0]) + w.drop_first() =~= accw + w);
        assert(accu.push(uuids[0]) + uuids.drop_first() =~= accu + uuids);
        assert forall|i: int| 0 <= i < w.drop_first().len() implies entity_doc(
            #[trigger] items.drop_first()[i],
            uuids.drop_first()[i],
            w.drop_first()[i],
        ) && view_wf(w.drop_first()[i]) by {
            assert(items.drop_first()[i] == items[i + 1]);
            assert(uuids.drop_first()[i] == uuids[i + 1]);
            assert(w.drop_first()[i] == w[i + 1]);
        }
        assert forall|e: int, i: int|
            0 <= e < w.drop_first().len() && 0 <= i < w.drop_first()[e].len() implies (
        #[trigger] spec_find_by_uuid(regs, w.drop_first()[e][i].0)) is Some by {
            assert(w.drop_first()[e] == w[e + 1]);
        }
        lemma_entities_round(
            items.drop_first(),
            w.drop_first(),
            uuids.drop_first(),
            regs,
            accw.push(w[0]),
            accu.push(uuids[0]),
        );
    }
}

/// Cooked round-trip: a written cooked prefab, read back against a
/// registry that knows every component kind it uses, decodes without
/// error to the very world that was written — entity by entity, in
/// handle order, each under the identity it was written with.  The
/// identity-to-components mapping of the reread prefab is therefore
/// the one written.
pub proof fn lemma_cooked_round_trip(
    cp: CookedPrefab,
    doc: Node,
    uuids: Seq<EntityUuid>,
    regs: Seq<crate::registry::ComponentRegistration>,
)
    requires
        cooked_serialization(cp, doc, uuids),
        world_wf(cp.world),
        world_registered(world_view(cp.world), regs),
    ensures
        spec_decode_cooked(doc, regs) == Ok::<
            (Seq<Seq<(ComponentTypeUuid, Seq<u8>)>>, Seq<EntityUuid>),
            PrefabError,
        >((world_view(cp.world), uuids)),
{
    let w = world_view(cp.world);
    assert forall|e: int| 0 <= e < w.len() implies view_wf(#[trigger] w[e]) by {
        assert(w[e] == entity_view(cp.world.entities@[e]));
        assert(rec_wf(cp.world.entities@[e].components@));
        assert forall|i: int, j: int| 0 <= i < j < w[e].len() implies w[e][i].0 != w[e][j].0 by {
            assert(w[e][i].0 == cp.world.entities@[e].components@[i].0);
            assert(w[e][j].0 == cp.world.entities@[e].components@[j].0);
        }
    }
    let ents = doc->Fields_0@[0].1->List_0;
    assert(Seq::<Seq<(ComponentTypeUuid, Seq<u8>)>>::empty() + w =~= w);
    assert(Seq::<EntityUuid>::empty() + uuids =~= uuids);
    lemma_entities_round(ents@, w, uuids, regs, Seq::empty(), Seq::empty());
}

} // verus!
