//! Entities and the columns that hold their components.

use vstd::prelude::*;

verus! {

/// Identity of one entity of a world.
#[derive(Clone, Copy, Debug, PartialEq, Eq, PartialOrd, Ord, Hash, Structural)]
pub struct Entity(pub u64);

impl Entity {
    /// An identity that stands for no entity of a world.
    pub fn placeholder() -> (e: Entity)
        ensures
            e == Entity(u64::MAX),
    {
        Entity(u64::MAX)
    }

    /// The number behind the identity.
    pub fn to_bits(self) -> (bits: u64)
        ensures
            bits == self.0,
    {
        self.0
    }
}

impl View for Entity {
    type V = Entity;

    open spec fn view(&self) -> Entity {
        *self
    }
}

impl DeepView for Entity {
    type V = Entity;

    open spec fn deep_view(&self) -> Entity {
        *self
    }
}

/// Whether the entities stand in strictly ascending order.
pub open spec fn strictly_ascending(s: Seq<Entity>) -> bool {
    forall|i: int, j: int| 0 <= i < j < s.len() ==> (#[trigger] s[i]).0 < (#[trigger] s[j]).0
}

/// The members of a finite set of entities, in ascending order.
pub open spec fn entities_of(members: Set<Entity>) -> Seq<Entity> {
    choose|s: Seq<Entity>| strictly_ascending(s) && #[trigger] s.to_set() == members
}

/// Two ascending sequences with the same members are the same sequence.
pub proof fn lemma_ascending_unique(a: Seq<Entity>, b: Seq<Entity>)
    requires
        strictly_ascending(a),
        strictly_ascending(b),
        a.to_set() == b.to_set(),
    ensures
        a == b,
    decreases a.len(),
{
    if a.len() == 0 {
        if b.len() > 0 {
            assert(b.to_set().contains(b[0]));
            assert(a.to_set().contains(b[0]));
        }
        assert(a =~= b);
    } else {
        assert(a.to_set().contains(a.last()));
        assert(b.to_set().contains(a.last()));
        let j = choose|j: int| 0 <= j < b.len() && b[j] == a.last();
        assert(b.to_set().contains(b.last()));
        assert(a.to_set().contains(b.last()));
        let i = choose|i: int| 0 <= i < a.len() && a[i] == b.last();
        assert(a.last() == b.last());
        let a0 = a.drop_last();
        let b0 = b.drop_last();
        assert forall|e: Entity| a0.to_set().contains(e) <==> b0.to_set().contains(e) by {
            if a0.to_set().contains(e) {
                let k = choose|k: int| 0 <= k < a0.len() && a0[k] == e;
                assert(a[k] == e);
                assert(a.to_set().contains(e));
                assert(b.to_set().contains(e));
                let m = choose|m: int| 0 <= m < b.len() && b[m] == e;
                assert(b0[m] == e);
                assert(b0.to_set().contains(e));
            }
            if b0.to_set().contains(e) {
                let k = choose|k: int| 0 <= k < b0.len() && b0[k] == e;
                assert(b[k] == e);
                assert(b.to_set().contains(e));
                assert(a.to_set().contains(e));
                let m = choose|m: int| 0 <= m < a.len() && a[m] == e;
                assert(a0[m] == e);
                assert(a0.to_set().contains(e));
            }
        }
        assert(a0.to_set() =~= b0.to_set());
        lemma_ascending_unique(a0, b0);
        assert(a =~= a0.push(a.last()));
        assert(b =~= b0.push(b.last()));
    }
}

/// Whether the rows stand in strictly ascending order of their entities.
pub open spec fn ascending_rows<T>(rows: Seq<(Entity, T)>) -> bool {
    forall|i: int, j: int|
        0 <= i < j < rows.len() ==> (#[trigger] rows[i]).0.0 < (#[trigger] rows[j]).0.0
}

/// Whether some row belongs to the entity.
pub open spec fn has_row<T>(rows: Seq<(Entity, T)>, e: Entity) -> bool {
    exists|i: int| 0 <= i < rows.len() && (#[trigger] rows[i]).0 == e
}

/// Position of the entity's row.
pub open spec fn row_of<T>(rows: Seq<(Entity, T)>, e: Entity) -> int {
    choose|i: int| 0 <= i < rows.len() && (#[trigger] rows[i]).0 == e
}

/// The rows as a map from entity to the view of its component.
pub open spec fn rows_map<T: DeepView>(rows: Seq<(Entity, T)>) -> Map<Entity, T::V> {
    Map::new(|e: Entity| has_row(rows, e), |e: Entity| rows[row_of(rows, e)].1.deep_view())
}

proof fn lemma_row<T: DeepView>(rows: Seq<(Entity, T)>, i: int)
    requires
        ascending_rows(rows),
        0 <= i < rows.len(),
    ensures
        has_row(rows, rows[i].0),
        row_of(rows, rows[i].0) == i,
        rows_map(rows).contains_key(rows[i].0),
        rows_map(rows)[rows[i].0] == rows[i].1.deep_view(),
{
    let e = rows[i].0;
    assert(has_row(rows, e));
    let k = row_of(rows, e);
    assert(0 <= k < rows.len() && rows[k].0 == e);
    if k < i {
        assert(rows[k].0.0 < rows[i].0.0);
    } else if i < k {
        assert(rows[i].0.0 < rows[k].0.0);
    }
}

/// Removing a key before it is written again changes nothing.
pub broadcast proof fn lemma_remove_insert<K, V>(m: Map<K, V>, k: K, v: V)
    ensures
        #[trigger] m.remove(k).insert(k, v) == m.insert(k, v),
{
    assert(m.remove(k).insert(k, v) =~= m.insert(k, v));
}

/// One component of every entity that has it.
#[derive(Debug)]
pub struct Column<T> {
    rows: Vec<(Entity, T)>,
}

impl<T> Column<T> {
    #[verifier::type_invariant]
    spec fn ordered(self) -> bool {
        ascending_rows(self.rows@)
    }
}

impl<T: DeepView> View for Column<T> {
    type V = Map<Entity, T::V>;

    closed spec fn view(&self) -> Map<Entity, T::V> {
        rows_map(self.rows@)
    }
}

impl<T: DeepView> Column<T> {
    /// A column without rows.
    pub fn new() -> (r: Self)
        ensures
            r@ == Map::<Entity, T::V>::empty(),
    {
        let r = Column { rows: Vec::new() };
        assert(rows_map(r.rows@) =~= Map::<Entity, T::V>::empty());
        r
    }

    /// Position of the first row whose entity is not below `e`.
    fn position(&self, e: Entity) -> (p: usize)
        ensures
            p <= self.rows@.len(),
            forall|i: int| 0 <= i < p ==> (#[trigger] self.rows@[i]).0.0 < e.0,
            forall|i: int| p <= i < self.rows@.len() ==> (#[trigger] self.rows@[i]).0.0 >= e.0,
    {
        proof {
            use_type_invariant(self);
        }
        let mut lo: usize = 0;
        let mut hi: usize = self.rows.len();
        while lo < hi
            invariant
                lo <= hi <= self.rows@.len(),
                ascending_rows(self.rows@),
                forall|i: int| 0 <= i < lo ==> (#[trigger] self.rows@[i]).0.0 < e.0,
                forall|i: int| hi <= i < self.rows@.len() ==> (#[trigger] self.rows@[i]).0.0 >= e.0,
            decreases hi - lo,
        {
            let mid: usize = lo + (hi - lo) / 2;
            if self.rows[mid].0.0 < e.0 {
                lo = mid + 1;
            } else {
                hi = mid;
            }
        }
        lo
    }

    /// The component of an entity.
    pub fn get(&self, e: Entity) -> (r: Option<&T>)
        ensures
            match r {
                Some(x) => self@.contains_key(e) && x.deep_view() == self@[e],
                None => !self@.contains_key(e),
            },
    {
        proof {
            use_type_invariant(self);
        }
        let p: usize = self.position(e);
        if p < self.rows.len() && self.rows[p].0.0 == e.0 {
            proof {
                lemma_row(self.rows@, p as int);
            }
            Some(&self.rows[p].1)
        } else {
            None
        }
    }

    /// Whether the entity has the component.
    pub fn contains(&self, e: Entity) -> (r: bool)
        ensures
            r == self@.contains_key(e),
    {
        self.get(e).is_some()
    }

    /// The entities that have the component, in ascending order.
    pub fn entities(&self) -> (r: Vec<Entity>)
        ensures
            r@ == entities_of(self@.dom()),
            strictly_ascending(r@),
            r@.to_set() == self@.dom(),
            forall|i: int| 0 <= i < r@.len() ==> self@.contains_key(#[trigger] r@[i]),
    {
        proof {
            use_type_invariant(self);
        }
        let mut r: Vec<Entity> = Vec::new();
        let mut i: usize = 0;
        while i < self.rows.len()
            invariant
                i <= self.rows@.len(),
                r@.len() == i,
                forall|k: int| 0 <= k < i ==> #[trigger] r@[k] == self.rows@[k].0,
            decreases self.rows@.len() - i,
        {
            r.push(self.rows[i].0);
            i = i + 1;
        }
        proof {
            assert forall|e: Entity| r@.to_set().contains(e) <==> self@.dom().contains(e) by {
                if r@.to_set().contains(e) {
                    let k = choose|k: int| 0 <= k < r@.len() && r@[k] == e;
                    assert(self.rows@[k].0 == e);
                }
                if self@.dom().contains(e) {
                    let k = row_of(self.rows@, e);
                    assert(r@[k] == e);
                }
            }
            assert(r@.to_set() =~= self@.dom());
            assert(strictly_ascending(r@));
            let c = entities_of(self@.dom());
            assert(strictly_ascending(c) && c.to_set() == self@.dom());
            lemma_ascending_unique(r@, c);
            assert forall|k: int| 0 <= k < r@.len() implies self@.contains_key(#[trigger] r@[k]) by {
                lemma_row(self.rows@, k);
            }
        }
        r
    }

    /// Gives the entity a component, in place of the one it may have.
    pub fn insert(&mut self, e: Entity, value: T)
        ensures
            final(self)@ == old(self)@.insert(e, value.deep_view()),
    {
        proof {
            use_type_invariant(&*self);
        }
        let ghost before = self.rows@;
        let p: usize = self.position(e);
        let present = p < self.rows.len() && self.rows[p].0.0 == e.0;
        let mut rows: Vec<(Entity, T)> = Vec::new();
        std::mem::swap(&mut rows, &mut self.rows);
        if present {
            rows.set(p, (e, value));
        } else {
            rows.insert(p, (e, value));
        }
        proof {
            assert(ascending_rows(rows@));
            let target = rows_map(before).insert(e, value.deep_view());
            assert forall|x: Entity| rows_map(rows@).contains_key(x) <==> target.contains_key(x) by {
                if has_row(rows@, x) {
                    let k = row_of(rows@, x);
                    if x != e {
                        if present || k < p {
                            assert(before[k].0 == x);
                        } else {
                            assert(before[k - 1].0 == x);
                        }
                    }
                }
                if has_row(before, x) {
                    let k = row_of(before, x);
                    if present || k < p {
                        assert(rows@[k].0 == x);
                    } else {
                        assert(rows@[k + 1].0 == x);
                    }
                }
                assert(rows@[p as int].0 == e);
            }
            assert forall|x: Entity| #[trigger] rows_map(rows@).contains_key(x) implies rows_map(rows@)[x]
                == target[x] by {
                let k = row_of(rows@, x);
                lemma_row(rows@, k);
                if x != e {
                    if present || k < p {
                        lemma_row(before, k);
                        assert(before[k] == rows@[k]);
                    } else {
                        lemma_row(before, k - 1);
                        assert(before[k - 1] == rows@[k]);
                    }
                } else {
                    lemma_row(rows@, p as int);
                }
            }
            assert(rows_map(rows@) =~= target);
        }
        self.rows = rows;
    }

    /// Takes an entity's component away.
    pub fn remove(&mut self, e: Entity) -> (r: Option<T>)
        ensures
            final(self)@ == old(self)@.remove(e),
            match r {
                Some(x) => old(self)@.contains_key(e) && x.deep_view() == old(self)@[e],
                None => !old(self)@.contains_key(e),
            },
    {
        proof {
            use_type_invariant(&*self);
        }
        let ghost before = self.rows@;
        let p: usize = self.position(e);
        if p < self.rows.len() && self.rows[p].0.0 == e.0 {
            let mut rows: Vec<(Entity, T)> = Vec::new();
            std::mem::swap(&mut rows, &mut self.rows);
            let taken = rows.remove(p);
            proof {
                lemma_row(before, p as int);
                assert(ascending_rows(rows@));
                let target = rows_map(before).remove(e);
                assert forall|x: Entity| rows_map(rows@).contains_key(x) <==> target.contains_key(x) by {
                    if has_row(rows@, x) {
                        let k = row_of(rows@, x);
                        if k < p {
                            assert(before[k].0 == x);
                        } else {
                            assert(before[k + 1].0 == x);
                        }
                    }
                    if has_row(before, x) && x != e {
                        let k = row_of(before, x);
                        if k < p {
                            assert(rows@[k].0 == x);
                        } else {
                            assert(rows@[k - 1].0 == x);
                        }
                    }
                }
                assert forall|x: Entity| #[trigger] rows_map(rows@).contains_key(x) implies rows_map(
                    rows@,
                )[x] == target[x] by {
                    let k = row_of(rows@, x);
                    lemma_row(rows@, k);
                    if k < p {
                        lemma_row(before, k);
                        assert(before[k] == rows@[k]);
                    } else {
                        lemma_row(before, k + 1);
                        assert(before[k + 1] == rows@[k]);
                    }
                }
                assert(rows_map(rows@) =~= target);
            }
            self.rows = rows;
            Some(taken.1)
        } else {
            assert(self@.remove(e) =~= self@);
            None
        }
    }
}

/// A relation without its pairs that point at `target`.
pub open spec fn without_target(relation: Map<Entity, Entity>, target: Entity) -> Map<Entity, Entity> {
    relation.remove_keys(Set::new(|e: Entity| relation.contains_key(e) && relation[e] == target))
}

/// The entities that a relation leads to `target` from, in ascending order.
pub open spec fn sources_of(relation: Map<Entity, Entity>, target: Entity) -> Seq<Entity> {
    pointing_at(relation, target, entities_of(relation.dom()))
}

proof fn lemma_pointing_at(
    relation: Map<Entity, Entity>,
    target: Entity,
    ids: Seq<Entity>,
    e: Entity,
)
    ensures
        pointing_at(relation, target, ids).contains(e) <==> ids.contains(e) && relation[e]
            == target,
    decreases ids.len(),
{
    if ids.len() > 0 {
        let front = ids.drop_last();
        let rest = pointing_at(relation, target, front);
        lemma_pointing_at(relation, target, front, e);
        if front.contains(e) {
            let k = choose|k: int| 0 <= k < front.len() && front[k] == e;
            assert(ids[k] == e);
        }
        if ids.contains(e) && e != ids.last() {
            let k = choose|k: int| 0 <= k < ids.len() && ids[k] == e;
            assert(front[k] == e);
        }
        if rest.contains(e) {
            let k = choose|k: int| 0 <= k < rest.len() && rest[k] == e;
            assert(rest.push(ids.last())[k] == e);
        }
        if rest.push(ids.last()).contains(e) && e != ids.last() {
            let k = choose|k: int| 0 <= k < rest.push(ids.last()).len() && rest.push(
                ids.last(),
            )[k] == e;
            assert(rest[k] == e);
        }
        if e == ids.last() {
            assert(ids[ids.len() - 1] == e);
            assert(rest.push(e)[rest.len() as int] == e);
        }
    }
}

/// The sources of a target are the entities that point at it.
pub proof fn lemma_sources(relation: Map<Entity, Entity>, target: Entity, e: Entity)
    requires
        relation.dom().finite(),
    ensures
        sources_of(relation, target).contains(e) <==> relation.contains_key(e) && relation[e]
            == target,
{
    lemma_entities(relation.dom());
    let ids = entities_of(relation.dom());
    lemma_pointing_at(relation, target, ids, e);
    assert(ids.contains(e) <==> ids.to_set().contains(e));
}

proof fn lemma_pointing_ascending(
    relation: Map<Entity, Entity>,
    target: Entity,
    ids: Seq<Entity>,
)
    requires
        strictly_ascending(ids),
    ensures
        strictly_ascending(pointing_at(relation, target, ids)),
    decreases ids.len(),
{
    if ids.len() > 0 {
        let front = ids.drop_last();
        lemma_pointing_ascending(relation, target, front);
        let rest = pointing_at(relation, target, front);
        let all = pointing_at(relation, target, ids);
        assert forall|i: int, j: int| 0 <= i < j < all.len() implies (#[trigger] all[i]).0 < (
        #[trigger] all[j]).0 by {
            assert(all[i] == rest[i]);
            if j == rest.len() {
                lemma_pointing_at(relation, target, front, rest[i]);
                assert(rest.contains(rest[i]));
                let k = choose|k: int| 0 <= k < front.len() && front[k] == rest[i];
                assert(ids[k].0 < ids[ids.len() - 1].0);
            } else {
                assert(all[j] == rest[j]);
            }
        }
    }
}

/// The sources of a target stand in ascending order.
pub proof fn lemma_sources_ascending(relation: Map<Entity, Entity>, target: Entity)
    requires
        relation.dom().finite(),
    ensures
        strictly_ascending(sources_of(relation, target)),
{
    lemma_entities(relation.dom());
    lemma_pointing_ascending(relation, target, entities_of(relation.dom()));
}

/// A finite set that is not empty has a greatest entity.
proof fn lemma_greatest(members: Set<Entity>) -> (e: Entity)
    requires
        members.finite(),
        members.len() > 0,
    ensures
        members.contains(e),
        forall|x: Entity| members.contains(x) ==> x.0 <= e.0,
    decreases members.len(),
{
    let a = members.choose();
    let rest = members.remove(a);
    if rest.len() == 0 {
        assert forall|x: Entity| members.contains(x) implies x.0 <= a.0 by {
            if x != a {
                assert(rest.contains(x));
            }
        }
        a
    } else {
        let b = lemma_greatest(rest);
        let e = if a.0 < b.0 {
            b
        } else {
            a
        };
        assert forall|x: Entity| members.contains(x) implies x.0 <= e.0 by {
            if x != a {
                assert(rest.contains(x));
            }
        }
        e
    }
}

proof fn lemma_enumeration(members: Set<Entity>) -> (s: Seq<Entity>)
    requires
        members.finite(),
    ensures
        strictly_ascending(s),
        s.to_set() == members,
    decreases members.len(),
{
    if members.len() == 0 {
        let s = Seq::<Entity>::empty();
        assert(s.to_set() =~= members);
        s
    } else {
        let e = lemma_greatest(members);
        let rest = lemma_enumeration(members.remove(e));
        let s = rest.push(e);
        assert forall|i: int, j: int| 0 <= i < j < s.len() implies (#[trigger] s[i]).0 < (
        #[trigger] s[j]).0 by {
            if j == rest.len() {
                assert(rest.to_set().contains(rest[i]));
                assert(members.contains(rest[i]));
                assert(rest[i] != e);
            }
        }
        assert forall|x: Entity| s.to_set().contains(x) <==> members.contains(x) by {
            if members.contains(x) && x != e {
                assert(rest.to_set().contains(x));
                let k = choose|k: int| 0 <= k < rest.len() && rest[k] == x;
                assert(s[k] == x);
            }
            if x == e {
                assert(s[rest.len() as int] == e);
            }
            if s.to_set().contains(x) && x != e {
                let k = choose|k: int| 0 <= k < s.len() && s[k] == x;
                assert(rest[k] == x);
                assert(rest.to_set().contains(x));
            }
        }
        assert(s.to_set() =~= members);
        s
    }
}

/// The entities of a finite set, in ascending order, are its members.
pub proof fn lemma_entities(members: Set<Entity>)
    requires
        members.finite(),
    ensures
        strictly_ascending(entities_of(members)),
        entities_of(members).to_set() == members,
{
    let s = lemma_enumeration(members);
    assert(strictly_ascending(s) && s.to_set() == members);
}

/// Entities in ascending order are the entities of their set.
pub proof fn lemma_ascending_entities(s: Seq<Entity>)
    requires
        strictly_ascending(s),
    ensures
        entities_of(s.to_set()) == s,
{
    let other = entities_of(s.to_set());
    assert(strictly_ascending(s) && s.to_set() == s.to_set());
    assert(strictly_ascending(other) && other.to_set() == s.to_set());
    lemma_ascending_unique(other, s);
}

/// Those of `ids` that the relation leads to `target` from, in the order of `ids`.
pub open spec fn pointing_at(
    relation: Map<Entity, Entity>,
    target: Entity,
    ids: Seq<Entity>,
) -> Seq<Entity>
    decreases ids.len(),
{
    if ids.len() == 0 {
        Seq::empty()
    } else {
        let rest = pointing_at(relation, target, ids.drop_last());
        if relation[ids.last()] == target {
            rest.push(ids.last())
        } else {
            rest
        }
    }
}

impl Column<Entity> {
    /// Takes away every pair that points at `target`.
    pub fn remove_target(&mut self, target: Entity)
        ensures
            final(self)@ == without_target(old(self)@, target),
    {
        let ids = self.entities();
        let ghost before = self@;
        let mut i: usize = 0;
        while i < ids.len()
            invariant
                i <= ids@.len(),
                ids@.to_set() == before.dom(),
                strictly_ascending(ids@),
                forall|e: Entity|
                    #![trigger self@.contains_key(e)]
                    self@.contains_key(e) <==> before.contains_key(e) && !(before[e] == target
                        && exists|k: int| 0 <= k < i && #[trigger] ids@[k] == e),
                forall|e: Entity| #[trigger] self@.contains_key(e) ==> self@[e] == before[e],
            decreases ids@.len() - i,
        {
            let e = ids[i];
            let mut hit = false;
            if let Some(t) = self.get(e) {
                hit = t.0 == target.0;
            }
            let ghost was = self@;
            if hit {
                let _ = self.remove(e);
            }
            i = i + 1;
            proof {
                assert(ids@[i - 1] == e);
                assert(before.dom().contains(e)) by {
                    assert(ids@.to_set().contains(ids@[i - 1]));
                }
                assert forall|x: Entity| #![trigger self@.contains_key(x)]
                    self@.contains_key(x) <==> before.contains_key(x) && !(before[x] == target
                        && exists|k: int| 0 <= k < i && #[trigger] ids@[k] == x) by {
                    if exists|k: int| 0 <= k < i && #[trigger] ids@[k] == x {
                        let k = choose|k: int| 0 <= k < i && #[trigger] ids@[k] == x;
                        if k < i - 1 {
                            assert(exists|k: int| 0 <= k < i - 1 && #[trigger] ids@[k] == x);
                        }
                    }
                    assert(was.contains_key(x) == was.contains_key(x));
                    if x == e {
                        assert(!exists|k: int| 0 <= k < i - 1 && #[trigger] ids@[k] == e);
                    }
                }
            }
        }
        proof {
            assert forall|x: Entity| self@.contains_key(x) <==> without_target(before, target).contains_key(x) by {
                if before.contains_key(x) {
                    assert(ids@.to_set().contains(x));
                }
            }
            assert(self@ =~= without_target(before, target));
        }
    }

    /// The entities that point at `target`, in ascending order.
    pub fn sources(&self, target: Entity) -> (r: Vec<Entity>)
        ensures
            r@ == sources_of(self@, target),
    {
        let ids = self.entities();
        let mut r: Vec<Entity> = Vec::new();
        let mut i: usize = 0;
        while i < ids.len()
            invariant
                i <= ids@.len(),
                ids@ == entities_of(self@.dom()),
                forall|k: int| 0 <= k < ids@.len() ==> self@.contains_key(#[trigger] ids@[k]),
                r@ == pointing_at(self@, target, ids@.take(i as int)),
            decreases ids@.len() - i,
        {
            let e = ids[i];
            proof {
                assert(ids@.take(i + 1).drop_last() =~= ids@.take(i as int));
                assert(ids@.take(i + 1).last() == e);
                assert(self@.contains_key(ids@[i as int]));
            }
            if let Some(t) = self.get(e) {
                if t.0 == target.0 {
                    r.push(e);
                }
            }
            i = i + 1;
        }
        assert(ids@.take(i as int) =~= ids@);
        r
    }
}

} // verus!
