use vstd::prelude::*;
use crate::arena::{clear_of, has_clear_spot, in_arena, place_clear_of, Arena};

verus! {

broadcast use vstd::seq_lib::group_seq_properties;

/// What an entity is.
#[derive(Clone, Copy, Debug, PartialEq, Eq, Structural)]
pub enum Kind {
    Player,
    Shot,
    Meteoroid,
}

/// The label of an entity: its kind and its number (the shot counter for a
/// shot, the place in its spawn batch for a meteoroid).
#[derive(Clone, Copy, Debug, PartialEq, Eq, Structural)]
pub struct EntityId {
    pub kind: Kind,
    pub index: u64,
}

/// A labelled entity at a position of the arena's grid.
#[derive(Clone, Copy, Debug)]
pub struct Entity {
    pub id: EntityId,
    pub x: i64,
    pub y: i64,
}

/// The live entities, in the order they were added.
pub struct Registry {
    pub entities: Vec<Entity>,
}

/// Position of the last player in `s`, if any.
pub open spec fn player_pos(s: Seq<Entity>) -> Option<(i64, i64)>
    decreases s.len(),
{
    if s.len() == 0 {
        None
    } else if s.last().id.kind == Kind::Player {
        Some((s.last().x, s.last().y))
    } else {
        player_pos(s.drop_last())
    }
}

/// The label of `e` when it is a shot outside the arena.
pub open spec fn escaped(a: Arena) -> spec_fn(Entity) -> Option<EntityId> {
    |e: Entity|
        if e.id.kind == Kind::Shot && !in_arena(a, e.x as int, e.y as int) {
            Some(e.id)
        } else {
            None
        }
}

/// Labels of the shots of `s` outside the arena, in order.
pub open spec fn escaped_shots(s: Seq<Entity>, a: Arena) -> Seq<EntityId> {
    s.filter_map(escaped(a))
}

/// `e`'s label is not among `ids`.
pub open spec fn not_listed(ids: Seq<EntityId>) -> spec_fn(Entity) -> bool {
    |e: Entity| !ids.contains(e.id)
}

/// The entities of `s` whose labels are not among `ids`, in order.
pub open spec fn without_ids(s: Seq<Entity>, ids: Seq<EntityId>) -> Seq<Entity> {
    s.filter(not_listed(ids))
}

/// The labels of `s`, in order.
pub open spec fn ids_of(s: Seq<Entity>) -> Seq<EntityId> {
    s.map_values(|e: Entity| e.id)
}

proof fn lemma_filter_map_keeps(s: Seq<Entity>, f: spec_fn(Entity) -> Option<EntityId>, j: int)
    requires
        0 <= j < s.len(),
        f(s[j]).is_some(),
    ensures
        s.filter_map(f).contains(f(s[j]).unwrap()),
    decreases s.len(),
{
    let t = s.drop_last();
    if j == s.len() - 1 {
        assert(s.filter_map(f).last() == f(s[j]).unwrap());
    } else {
        assert(t[j] == s[j]);
        lemma_filter_map_keeps(t, f, j);
        let k = choose|k: int| 0 <= k < t.filter_map(f).len() && t.filter_map(f)[k] == f(s[j]).unwrap();
        assert(s.filter_map(f)[k] == t.filter_map(f)[k]);
    }
}

/// A shot found outside the arena by the boundary pass has its label among
/// the pending labels, and once those labels (with any added later in the
/// frame) are removed, no entity with that label is left.
pub proof fn lemma_escaped_shot_removed(
    s: Seq<Entity>,
    a: Arena,
    pending: Seq<EntityId>,
    later: Seq<EntityId>,
    live: Seq<Entity>,
    j: int,
)
    requires
        0 <= j < s.len(),
        s[j].id.kind == Kind::Shot,
        !in_arena(a, s[j].x as int, s[j].y as int),
    ensures
        (pending + escaped_shots(s, a)).contains(s[j].id),
        !ids_of(without_ids(live, pending + escaped_shots(s, a) + later)).contains(s[j].id),
{
    lemma_filter_map_keeps(s, escaped(a), j);
    let e = escaped_shots(s, a);
    let k = choose|k: int| 0 <= k < e.len() && e[k] == s[j].id;
    assert((pending + e)[pending.len() + k] == s[j].id);
    let q = pending + e + later;
    assert(q[pending.len() + k] == s[j].id);
    let w = without_ids(live, q);
    assert forall|i: int| 0 <= i < ids_of(w).len() implies ids_of(w)[i] != s[j].id by {
        assert(not_listed(q)(w[i]));
    }
}

/// `e` moved back to the origin when it is a player; otherwise dropped.
pub open spec fn player_reset() -> spec_fn(Entity) -> Option<Entity> {
    |e: Entity|
        if e.id.kind == Kind::Player {
            Some(Entity { id: e.id, x: 0, y: 0 })
        } else {
            None
        }
}

/// The players of `s` moved back to the origin, and nothing else.
pub open spec fn players_at_origin(s: Seq<Entity>) -> Seq<Entity> {
    s.filter_map(player_reset())
}

/// `id` is not among `ids`.
pub open spec fn id_not_in(ids: Seq<EntityId>) -> spec_fn(EntityId) -> bool {
    |id: EntityId| !ids.contains(id)
}

/// Removing labels from a registry keeps, of its labels, those not removed.
pub proof fn lemma_ids_without(s: Seq<Entity>, q: Seq<EntityId>)
    ensures
        ids_of(without_ids(s, q)) == ids_of(s).filter(id_not_in(q)),
    decreases s.len(),
{
    if s.len() > 0 {
        let t = s.drop_last();
        let e = s.last();
        lemma_ids_without(t, q);
        assert(s =~= t.push(e));
        t.lemma_filter_push(e, not_listed(q));
        assert(ids_of(s) =~= ids_of(t).push(e.id));
        ids_of(t).lemma_filter_push(e.id, id_not_in(q));
        if !q.contains(e.id) {
            assert(ids_of(without_ids(t, q).push(e)) =~= ids_of(without_ids(t, q)).push(e.id));
        }
    } else {
        assert(ids_of(s) =~= Seq::<EntityId>::empty());
        assert(without_ids(s, q) =~= Seq::<Entity>::empty()) by {
            reveal(Seq::filter);
        }
        assert(ids_of(s).filter(id_not_in(q)) =~= Seq::<EntityId>::empty()) by {
            reveal(Seq::filter);
        }
    }
}

/// Whether `id` is among `ids`.
pub fn list_contains(ids: &Vec<EntityId>, id: EntityId) -> (r: bool)
    ensures
        r == ids@.contains(id),
{
    let mut i: usize = 0;
    while i < ids.len()
        invariant
            0 <= i <= ids.len(),
            forall|j: int| 0 <= j < i ==> ids@[j] != id,
        decreases ids.len() - i,
    {
        if ids[i] == id {
            return true;
        }
        i += 1;
    }
    false
}

impl Registry {
    pub fn new() -> (r: Registry)
        ensures
            r.entities@ == Seq::<Entity>::empty(),
    {
        Registry { entities: Vec::new() }
    }

    /// Appends `e`.
    pub fn add(&mut self, e: Entity)
        ensures
            final(self).entities@ == old(self).entities@.push(e),
    {
        self.entities.push(e);
    }

    /// Whether an entity is labelled `id`.
    pub fn contains(&self, id: EntityId) -> (r: bool)
        ensures
            r == ids_of(self.entities@).contains(id),
    {
        let mut i: usize = 0;
        while i < self.entities.len()
            invariant
                0 <= i <= self.entities.len(),
                forall|j: int| 0 <= j < i ==> self.entities@[j].id != id,
            decreases self.entities.len() - i,
        {
            if self.entities[i].id == id {
                assert(ids_of(self.entities@)[i as int] == id);
                return true;
            }
            i += 1;
        }
        assert forall|j: int| 0 <= j < ids_of(self.entities@).len() implies ids_of(
            self.entities@,
        )[j] != id by {}
        false
    }

    /// Position of the player.
    pub fn player_position(&self) -> (r: Option<(i64, i64)>)
        ensures
            r == player_pos(self.entities@),
    {
        let mut r: Option<(i64, i64)> = None;
        let mut i: usize = 0;
        while i < self.entities.len()
            invariant
                0 <= i <= self.entities.len(),
                r == player_pos(self.entities@.take(i as int)),
            decreases self.entities.len() - i,
        {
            let e = self.entities[i];
            assert(self.entities@.take(i + 1).drop_last() =~= self.entities@.take(i as int));
            if e.id.kind == Kind::Player {
                r = Some((e.x, e.y));
            }
            i += 1;
        }
        assert(self.entities@.take(self.entities@.len() as int) =~= self.entities@);
        r
    }

    /// Moves every entity labelled `id` to `(x, y)`.
    pub fn set_position(&mut self, id: EntityId, x: i64, y: i64)
        ensures
            final(self).entities@.len() == old(self).entities@.len(),
            forall|j: int|
                0 <= j < old(self).entities@.len() ==> #[trigger] final(self).entities@[j] == if old(
                    self,
                ).entities@[j].id == id {
                    Entity { id, x, y }
                } else {
                    old(self).entities@[j]
                },
    {
        let n = self.entities.len();
        let mut i: usize = 0;
        while i < n
            invariant
                n == self.entities.len(),
                n == old(self).entities@.len(),
                0 <= i <= n,
                forall|j: int|
                    0 <= j < i ==> #[trigger] self.entities@[j] == if old(self).entities@[j].id
                        == id {
                        Entity { id, x, y }
                    } else {
                        old(self).entities@[j]
                    },
                forall|j: int| i <= j < n ==> #[trigger] self.entities@[j] == old(self).entities@[j],
            decreases n - i,
        {
            if self.entities[i].id == id {
                self.entities.set(i, Entity { id, x, y });
            }
            i += 1;
        }
    }

    /// Removes every shot and meteoroid and moves the player back to the origin.
    pub fn keep_players_at_origin(&mut self)
        ensures
            final(self).entities@ == players_at_origin(old(self).entities@),
    {
        let ghost s0 = self.entities@;
        let ghost f = player_reset();
        let mut kept: Vec<Entity> = Vec::new();
        let mut i: usize = 0;
        while i < self.entities.len()
            invariant
                0 <= i <= self.entities.len(),
                s0 == self.entities@,
                f == player_reset(),
                kept@ == s0.take(i as int).filter_map(f),
            decreases self.entities.len() - i,
        {
            let e = self.entities[i];
            proof {
                s0.lemma_filter_map_take_succ(f, i as int);
            }
            if e.id.kind == Kind::Player {
                kept.push(Entity { id: e.id, x: 0, y: 0 });
            }
            assert(kept@ =~= s0.take(i + 1).filter_map(f));
            i += 1;
        }
        assert(s0.take(s0.len() as int) =~= s0);
        self.entities = kept;
    }

    /// Removes every entity whose label is among `ids`, keeping the order of
    /// the rest.
    pub fn remove_labels(&mut self, ids: &Vec<EntityId>)
        ensures
            final(self).entities@ == without_ids(old(self).entities@, ids@),
    {
        let ghost s0 = self.entities@;
        let ghost p = not_listed(ids@);
        let mut kept: Vec<Entity> = Vec::new();
        let mut i: usize = 0;
        while i < self.entities.len()
            invariant
                0 <= i <= self.entities.len(),
                s0 == self.entities@,
                p == not_listed(ids@),
                kept@ == s0.take(i as int).filter(p),
            decreases self.entities.len() - i,
        {
            let e = self.entities[i];
            assert(s0.take(i + 1) =~= s0.take(i as int).push(e));
            proof {
                s0.take(i as int).lemma_filter_push(e, p);
            }
            if !list_contains(ids, e.id) {
                kept.push(e);
            }
            i += 1;
        }
        assert(s0.take(s0.len() as int) =~= s0);
        self.entities = kept;
    }
}

/// The boundary rule, applied to every entity: a shot outside the arena has
/// its label appended to `pending`; a meteoroid outside the arena is moved to
/// a random spot of the arena clear of the ship at `(px, py)`; everything else
/// stays as it is.
pub fn boundary_pass(
    reg: &mut Registry,
    arena: Arena,
    px: i64,
    py: i64,
    pending: &mut Vec<EntityId>,
)
    requires
        arena.wf(),
    ensures
        final(pending)@ == old(pending)@ + escaped_shots(old(reg).entities@, arena),
        final(reg).entities@.len() == old(reg).entities@.len(),
        forall|j: int|
            0 <= j < old(reg).entities@.len() ==> {
                let e = old(reg).entities@[j];
                let f = #[trigger] final(reg).entities@[j];
                &&& f.id == e.id
                &&& if e.id.kind == Kind::Meteoroid && !in_arena(arena, e.x as int, e.y as int) {
                    &&& in_arena(arena, f.x as int, f.y as int)
                    &&& has_clear_spot(arena, px as int, py as int) ==> clear_of(
                        px as int,
                        py as int,
                        f.x as int,
                        f.y as int,
                    )
                } else {
                    f == e
                }
            },
{
    let ghost s0 = reg.entities@;
    let ghost p0 = pending@;
    let ghost g = escaped(arena);
    let n = reg.entities.len();
    let mut i: usize = 0;
    while i < n
        invariant
            n == reg.entities.len(),
            n == s0.len(),
            0 <= i <= n,
            arena.wf(),
            g == escaped(arena),
            pending@ == p0 + s0.take(i as int).filter_map(g),
            forall|j: int| i <= j < n ==> #[trigger] reg.entities@[j] == s0[j],
            forall|j: int|
                0 <= j < i ==> {
                    let e = s0[j];
                    let f = #[trigger] reg.entities@[j];
                    &&& f.id == e.id
                    &&& if e.id.kind == Kind::Meteoroid && !in_arena(
                        arena,
                        e.x as int,
                        e.y as int,
                    ) {
                        &&& in_arena(arena, f.x as int, f.y as int)
                        &&& has_clear_spot(arena, px as int, py as int) ==> clear_of(
                            px as int,
                            py as int,
                            f.x as int,
                            f.y as int,
                        )
                    } else {
                        f == e
                    }
                },
        decreases n - i,
    {
        let e = reg.entities[i];
        proof {
            s0.lemma_filter_map_take_succ(g, i as int);
        }
        let inside = arena.contains(e.x, e.y);
        if e.id.kind == Kind::Shot && !inside {
            pending.push(e.id);
        } else if e.id.kind == Kind::Meteoroid && !inside {
            let (x, y) = place_clear_of(arena, px, py);
            reg.entities.set(i, Entity { id: e.id, x, y });
        }
        assert(pending@ =~= p0 + s0.take(i + 1).filter_map(g));
        i += 1;
    }
    assert(s0.take(n as int) =~= s0);
}

} // verus!
