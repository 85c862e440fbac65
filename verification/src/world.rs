//! A flat model of an entity-component-system world.
//!
//! Entities are handles — indices into the world's entity list — and
//! each entity carries at most one component per component kind, in
//! the order the components were attached.  Component values are held
//! in their canonical wire form, a byte string.

use vstd::prelude::*;

use crate::ids::ComponentTypeUuid;

verus! {

/// The components of one entity, in attachment order.
#[derive(Debug)]
pub struct EntityRecord {
    pub components: Vec<(ComponentTypeUuid, Vec<u8>)>,
}

/// The value attached for a component kind: the first (and under
/// [`rec_wf`] the only) entry of that kind.
pub open spec fn spec_get(s: Seq<(ComponentTypeUuid, Vec<u8>)>, t: ComponentTypeUuid) -> Option<
    Seq<u8>,
>
    decreases s.len(),
{
    if s.len() == 0 {
        None
    } else if s[0].0 == t {
        Some(s[0].1@)
    } else {
        spec_get(s.drop_first(), t)
    }
}

/// Each component kind appears at most once.
pub open spec fn rec_wf(s: Seq<(ComponentTypeUuid, Vec<u8>)>) -> bool {
    forall|i: int, j: int| 0 <= i < j < s.len() ==> s[i].0 != s[j].0
}

/// Replacing the entry of kind `t` in place changes that kind's value
/// and no other.
proof fn lemma_spec_get_update(
    s: Seq<(ComponentTypeUuid, Vec<u8>)>,
    j: int,
    t: ComponentTypeUuid,
    v: Vec<u8>,
    x: ComponentTypeUuid,
)
    requires
        0 <= j < s.len(),
        s[j].0 == t,
        forall|i: int| 0 <= i < s.len() && i != j ==> s[i].0 != t,
    ensures
        spec_get(s.update(j, (t, v)), x) == (if x == t {
            Some(v@)
        } else {
            spec_get(s, x)
        }),
    decreases s.len(),
{
    let s2 = s.update(j, (t, v));
    if j == 0 {
        assert(s2.drop_first() =~= s.drop_first());
    } else {
        assert(s2[0] == s[0]);
        assert(s2.drop_first() =~= s.drop_first().update(j - 1, (t, v)));
        lemma_spec_get_update(s.drop_first(), j - 1, t, v, x);
    }
}

/// Appending an entry of a kind not yet present adds that kind's value
/// and changes no other.
proof fn lemma_spec_get_push(
    s: Seq<(ComponentTypeUuid, Vec<u8>)>,
    t: ComponentTypeUuid,
    v: Vec<u8>,
    x: ComponentTypeUuid,
)
    requires
        forall|i: int| 0 <= i < s.len() ==> s[i].0 != t,
    ensures
        spec_get(s.push((t, v)), x) == (if x == t {
            Some(v@)
        } else {
            spec_get(s, x)
        }),
    decreases s.len(),
{
    let s2 = s.push((t, v));
    if s.len() == 0 {
        assert(s2.len() == 1);
        assert(s2[0] == (t, v));
        assert(s2.drop_first() =~= Seq::<(ComponentTypeUuid, Vec<u8>)>::empty());
        if x == t {
            assert(spec_get(s2, x) == Some(v@));
        } else {
            assert(spec_get(s2, x) == spec_get(s2.drop_first(), x));
            assert(spec_get(s2, x) is None);
        }
    } else {
        assert(s2[0] == s[0]);
        assert(s2.drop_first() =~= s.drop_first().push((t, v)));
        lemma_spec_get_push(s.drop_first(), t, v, x);
    }
}

/// Removing the entry of kind `t` detaches that kind and no other.
proof fn lemma_spec_get_remove(
    s: Seq<(ComponentTypeUuid, Vec<u8>)>,
    j: int,
    t: ComponentTypeUuid,
    x: ComponentTypeUuid,
)
    requires
        0 <= j < s.len(),
        s[j].0 == t,
        forall|i: int| 0 <= i < s.len() && i != j ==> s[i].0 != t,
    ensures
        spec_get(s.remove(j), x) == (if x == t {
            None
        } else {
            spec_get(s, x)
        }),
    decreases s.len(),
{
    let s2 = s.remove(j);
    if j == 0 {
        assert(s2 =~= s.drop_first());
        if x == t {
            lemma_spec_get_absent(s.drop_first(), t);
        }
    } else {
        assert(s2[0] == s[0]);
        assert(s2.drop_first() =~= s.drop_first().remove(j - 1));
        lemma_spec_get_remove(s.drop_first(), j - 1, t, x);
    }
}

/// A kind not present looks up to nothing.
proof fn lemma_spec_get_absent(s: Seq<(ComponentTypeUuid, Vec<u8>)>, t: ComponentTypeUuid)
    requires
        forall|i: int| 0 <= i < s.len() ==> s[i].0 != t,
    ensures
        spec_get(s, t) is None,
    decreases s.len(),
{
    if s.len() > 0 {
        lemma_spec_get_absent(s.drop_first(), t);
    }
}

impl EntityRecord {
    /// A fresh entity with no components.
    pub fn new() -> (r: EntityRecord)
        ensures
            r.components@.len() == 0,
            rec_wf(r.components@),
    {
        EntityRecord { components: Vec::new() }
    }

    /// The index of the entry of kind `t`, if one is present.
    fn find(&self, t: ComponentTypeUuid) -> (r: Option<usize>)
        ensures
            (match r {
                Some(j) => 0 <= j < self.components@.len() && self.components@[j as int].0 == t
                    && (forall|i: int| 0 <= i < j ==> self.components@[i].0 != t),
                None => forall|i: int|
                    0 <= i < self.components@.len() ==> self.components@[i].0 != t,
            }),
    {
        let n = self.components.len();
        let mut i: usize = 0;
        while i < n
            invariant
                n == self.components@.len(),
                i <= n,
                forall|k: int| 0 <= k < i ==> self.components@[k].0 != t,
            decreases n - i,
        {
            if self.components[i].0 == t {
                return Some(i);
            }
            i += 1;
        }
        None
    }

    /// The value attached for kind `t`, if any.
    pub fn get_component(&self, t: ComponentTypeUuid) -> (r: Option<&Vec<u8>>)
        ensures
            (match r {
                Some(v) => spec_get(self.components@, t) == Some(v@),
                None => spec_get(self.components@, t) is None,
            }),
    {
        match self.find(t) {
            Some(j) => {
                proof {
                    lemma_first_match(self.components@, j as int, t);
                }
                Some(&self.components[j].1)
            },
            None => {
                proof {
                    lemma_spec_get_absent(self.components@, t);
                }
                None
            },
        }
    }

    /// Attaches a value of kind `t`, replacing any value that kind
    /// already had.
    pub fn add_component(&mut self, t: ComponentTypeUuid, value: Vec<u8>)
        requires
            rec_wf(old(self).components@),
        ensures
            rec_wf(final(self).components@),
            forall|x: ComponentTypeUuid| #[trigger]
                spec_get(final(self).components@, x) == (if x == t {
                    Some(value@)
                } else {
                    spec_get(old(self).components@, x)
                }),
    {
        let ghost s0 = self.components@;
        match self.find(t) {
            Some(j) => {
                self.components[j] = (t, value);
                proof {
                    assert(self.components@ =~= s0.update(j as int, (t, value)));
                    assert forall|x: ComponentTypeUuid| #[trigger]
                        spec_get(self.components@, x) == (if x == t {
                            Some(value@)
                        } else {
                            spec_get(s0, x)
                        }) by {
                        lemma_spec_get_update(s0, j as int, t, value, x);
                    }
                }
            },
            None => {
                self.components.push((t, value));
                proof {
                    assert(self.components@ =~= s0.push((t, value)));
                    assert forall|x: ComponentTypeUuid| #[trigger]
                        spec_get(self.components@, x) == (if x == t {
                            Some(value@)
                        } else {
                            spec_get(s0, x)
                        }) by {
                        lemma_spec_get_push(s0, t, value, x);
                    }
                }
            },
        }
    }

    /// Detaches the value of kind `t`, if one is present.
    pub fn remove_component(&mut self, t: ComponentTypeUuid)
        requires
            rec_wf(old(self).components@),
        ensures
            rec_wf(final(self).components@),
            forall|x: ComponentTypeUuid| #[trigger]
                spec_get(final(self).components@, x) == (if x == t {
                    None
                } else {
                    spec_get(old(self).components@, x)
                }),
    {
        let ghost s0 = self.components@;
        match self.find(t) {
            Some(j) => {
                self.components.remove(j);
                proof {
                    assert(self.components@ =~= s0.remove(j as int));
                    assert forall|x: ComponentTypeUuid| #[trigger]
                        spec_get(self.components@, x) == (if x == t {
                            None
                        } else {
                            spec_get(s0, x)
                        }) by {
                        lemma_spec_get_remove(s0, j as int, t, x);
                    }
                }
            },
            None => {
                proof {
                    lemma_spec_get_absent(s0, t);
                    assert forall|x: ComponentTypeUuid| #[trigger]
                        spec_get(self.components@, x) == (if x == t {
                            None
                        } else {
                            spec_get(s0, x)
                        }) by {
                        if x == t {
                            lemma_spec_get_absent(s0, x);
                        }
                    }
                }
            },
        }
    }
}

/// Under uniqueness, a match at `j` is the first match.
proof fn lemma_first_match(s: Seq<(ComponentTypeUuid, Vec<u8>)>, j: int, t: ComponentTypeUuid)
    requires
        0 <= j < s.len(),
        s[j].0 == t,
        forall|i: int| 0 <= i < j ==> s[i].0 != t,
    ensures
        spec_get(s, t) == Some(s[j].1@),
    decreases j,
{
    if j > 0 {
        assert(s.drop_first()[j - 1] == s[j]);
        lemma_first_match(s.drop_first(), j - 1, t);
    }
}

/// A flat world: entity handles are indices into the entity list.
#[derive(Debug)]
pub struct World {
    pub entities: Vec<EntityRecord>,
}

/// Every entity of the world keeps one value per component kind.
pub open spec fn world_wf(w: World) -> bool {
    forall|e: int| 0 <= e < w.entities@.len() ==> rec_wf(#[trigger] w.entities@[e].components@)
}

impl World {
    /// A fresh, empty world.
    pub fn new() -> (r: World)
        ensures
            r.entities@.len() == 0,
            world_wf(r),
    {
        World { entities: Vec::new() }
    }

    /// Materializes a fresh entity and returns its handle.
    pub fn push_entity(&mut self) -> (h: usize)
        requires
            world_wf(*old(self)),
        ensures
            world_wf(*final(self)),
            h == old(self).entities@.len(),
            final(self).entities@.len() == old(self).entities@.len() + 1,
            forall|e: int| 0 <= e < old(self).entities@.len() ==> final(self).entities@[e]
                == old(self).entities@[e],
            final(self).entities@[h as int].components@.len() == 0,
    {
        let h = self.entities.len();
        self.entities.push(EntityRecord::new());
        h
    }
}

} // verus!
