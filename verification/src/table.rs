//! A table of FBX objects keyed by object id, kept in increasing id order.
//! Storing an object under an id that is already present replaces the
//! earlier object, as a map does.
use vstd::prelude::*;
use vstd::pervasive::VecAdditionalExecFns;

verus! {

/// Objects keyed by id: `ids` strictly increase and `values[i]` is the
/// object with id `ids[i]`.
#[derive(Debug)]
pub struct IdTable<T> {
    pub ids: Vec<i64>,
    pub values: Vec<T>,
}

/// The ids strictly increase.
pub open spec fn strictly_increasing(ids: Seq<i64>) -> bool {
    forall|a: int, b: int| 0 <= a < b < ids.len() ==> ids[a] < ids[b]
}

impl<T> IdTable<T> {
    /// The table is well formed.
    pub open spec fn wf(&self) -> bool {
        &&& self.ids.len() == self.values.len()
        &&& strictly_increasing(self.ids@)
    }

    /// Whether the table holds an object under `id`.
    pub open spec fn has(&self, id: i64) -> bool {
        self.ids@.contains(id)
    }

    /// The position of `id` in the table.
    pub open spec fn position(&self, id: i64) -> int {
        choose|i: int| 0 <= i < self.ids@.len() && self.ids@[i] == id
    }

    /// The object stored under `id`, if any.
    pub open spec fn lookup(&self, id: i64) -> Option<T> {
        if self.has(id) {
            Some(self.values@[self.position(id)])
        } else {
            None
        }
    }

    /// An empty table.
    pub fn new() -> (t: IdTable<T>)
        ensures
            t.wf(),
            t.ids@.len() == 0,
            forall|id: i64| !t.has(id),
    {
        IdTable { ids: Vec::new(), values: Vec::new() }
    }

    /// The number of objects.
    pub fn len(&self) -> (n: usize)
        ensures
            n == self.ids@.len(),
    {
        self.ids.len()
    }

    /// The position of the first id not smaller than `id`.
    fn lower_bound(&self, id: i64) -> (pos: usize)
        requires
            self.wf(),
        ensures
            pos <= self.ids@.len(),
            forall|k: int| 0 <= k < pos ==> self.ids@[k] < id,
            pos < self.ids@.len() ==> self.ids@[pos as int] >= id,
    {
        let mut pos: usize = 0;
        while pos < self.ids.len() && self.ids[pos] < id
            invariant
                self.wf(),
                pos <= self.ids@.len(),
                forall|k: int| 0 <= k < pos ==> self.ids@[k] < id,
            decreases self.ids@.len() - pos,
        {
            pos = pos + 1;
        }
        pos
    }

    /// Where `id` is stored, if it is.
    pub fn find(&self, id: i64) -> (pos: Option<usize>)
        requires
            self.wf(),
        ensures
            match pos {
                Some(p) => self.has(id) && p == self.position(id) && p < self.ids@.len(),
                None => !self.has(id),
            },
    {
        let pos = self.lower_bound(id);
        if pos < self.ids.len() && self.ids[pos] == id {
            proof {
                let q = self.position(id);
                assert(self.ids@[pos as int] == id);
                assert(self.has(id));
                if q < pos {
                    assert(self.ids@[q] < id);
                } else if q > pos {
                    assert(self.ids@[pos as int] < self.ids@[q]);
                }
            }
            Some(pos)
        } else {
            proof {
                if self.has(id) {
                    let q = choose|q: int| 0 <= q < self.ids@.len() && self.ids@[q] == id;
                    if q >= pos && pos < self.ids@.len() {
                        if q > pos {
                            assert(self.ids@[pos as int] < self.ids@[q]);
                        }
                    }
                }
            }
            None
        }
    }

    /// The object stored under `id`, if any.
    pub fn get(&self, id: i64) -> (v: Option<&T>)
        requires
            self.wf(),
        ensures
            match v {
                Some(x) => self.lookup(id) == Some(*x),
                None => self.lookup(id) is None,
            },
    {
        match self.find(id) {
            Some(p) => Some(&self.values[p]),
            None => None,
        }
    }

    /// Stores `value` under `id`, replacing what was stored there.
    pub fn insert(&mut self, id: i64, value: T)
        requires
            old(self).wf(),
        ensures
            final(self).wf(),
            forall|k: i64| #[trigger] final(self).has(k) <==> (old(self).has(k) || k == id),
            forall|k: i64| #[trigger] final(self).lookup(k) == if k == id {
                Some(value)
            } else {
                old(self).lookup(k)
            },
    {
        let ghost old_table = *self;
        let pos = self.lower_bound(id);
        if pos < self.ids.len() && self.ids[pos] == id {
            self.values.set(pos, value);
            proof {
                assert forall|k: i64| #[trigger] self.has(k) <==> (old_table.has(k) || k == id) by {
                    if k == id {
                        assert(self.ids@[pos as int] == id);
                    }
                }
                assert forall|k: i64| #[trigger] self.lookup(k) == if k == id {
                    Some(value)
                } else {
                    old_table.lookup(k)
                } by {
                    if self.has(k) {
                        let q = self.position(k);
                        let q0 = old_table.position(k);
                        assert(self.ids@[q] == k && old_table.ids@[q0] == k);
                        if q < q0 {
                            assert(self.ids@[q] < self.ids@[q0]);
                        } else if q0 < q {
                            assert(self.ids@[q0] < self.ids@[q]);
                        }
                        if k == id {
                            assert(self.ids@[pos as int] == id);
                            if q < pos {
                                assert(self.ids@[q] < self.ids@[pos as int]);
                            } else if pos < q {
                                assert(self.ids@[pos as int] < self.ids@[q]);
                            }
                        }
                    }
                }
            }
        } else {
            self.ids.insert(pos, id);
            self.values.insert(pos, value);
            proof {
                let ids = self.ids@;
                let old_ids = old_table.ids@;
                assert forall|a: int, b: int| 0 <= a < b < ids.len() implies ids[a] < ids[b] by {
                    if b < pos {
                        assert(ids[a] == old_ids[a] && ids[b] == old_ids[b]);
                    } else if b == pos {
                        assert(ids[a] == old_ids[a]);
                    } else if a == pos {
                        assert(ids[b] == old_ids[b - 1]);
                        if pos < old_ids.len() {
                            if b - 1 > pos {
                                assert(old_ids[pos as int] < old_ids[b - 1]);
                            }
                        }
                    } else if a < pos {
                        assert(ids[a] == old_ids[a] && ids[b] == old_ids[b - 1]);
                    } else {
                        assert(ids[a] == old_ids[a - 1] && ids[b] == old_ids[b - 1]);
                    }
                }
                assert forall|k: i64| #[trigger] self.has(k) <==> (old_table.has(k) || k == id) by {
                    if k == id {
                        assert(ids[pos as int] == id);
                    }
                    if old_table.has(k) {
                        let q = choose|q: int| 0 <= q < old_ids.len() && old_ids[q] == k;
                        if q < pos {
                            assert(ids[q] == k);
                        } else {
                            assert(ids[q + 1] == k);
                        }
                    }
                    if self.has(k) && k != id {
                        let q = choose|q: int| 0 <= q < ids.len() && ids[q] == k;
                        if q < pos {
                            assert(old_ids[q] == k);
                        } else {
                            assert(old_ids[q - 1] == k);
                        }
                    }
                }
                assert forall|k: i64| #[trigger] self.lookup(k) == if k == id {
                    Some(value)
                } else {
                    old_table.lookup(k)
                } by {
                    if self.has(k) {
                        let q = self.position(k);
                        if k == id {
                            assert(ids[pos as int] == id);
                            if q < pos {
                                assert(ids[q] < ids[pos as int]);
                            } else if pos < q {
                                assert(ids[pos as int] < ids[q]);
                            }
                        } else {
                            let q0 = old_table.position(k);
                            assert(old_ids[q0] == k);
                            let shifted = if q0 < pos {
                                q0
                            } else {
                                q0 + 1
                            };
                            assert(ids[shifted] == k);
                            if q < shifted {
                                assert(ids[q] < ids[shifted]);
                            } else if shifted < q {
                                assert(ids[shifted] < ids[q]);
                            }
                        }
                    }
                }
            }
        }
    }
}

impl<T> IdTable<T> {
    /// Puts `value` at position `pos` and hands back what was there.
    pub fn swap_at(&mut self, pos: usize, value: T) -> (previous: T)
        requires
            old(self).wf(),
            pos < old(self).ids@.len(),
        ensures
            final(self).ids@ == old(self).ids@,
            final(self).values@ == old(self).values@.update(pos as int, value),
            previous == old(self).values@[pos as int],
            final(self).wf(),
    {
        let mut value = value;
        self.values.set_and_swap(pos, &mut value);
        value
    }
}

/// `id` stands at position `pos` of a well-formed table.
pub proof fn lemma_position_unique<T>(t: IdTable<T>, id: i64, pos: int)
    requires
        t.wf(),
        0 <= pos < t.ids@.len(),
        t.ids@[pos] == id,
    ensures
        t.has(id),
        t.position(id) == pos,
{
    assert(t.ids@.contains(id));
    let q = t.position(id);
    if q < pos {
        assert(t.ids@[q] < t.ids@[pos]);
    } else if pos < q {
        assert(t.ids@[pos] < t.ids@[q]);
    }
}

impl<T> IdTable<Vec<T>> {
    /// Appends `x` to the list stored under `id`, starting a list when there
    /// is none.
    pub fn push_to(&mut self, id: i64, x: T)
        requires
            old(self).wf(),
        ensures
            final(self).wf(),
            forall|k: i64| #[trigger] final(self).has(k) <==> (old(self).has(k) || k == id),
            forall|k: i64|
                k != id ==> #[trigger] final(self).lookup(k) == old(self).lookup(k),
            final(self).lookup(id)->0@ == if old(self).has(id) {
                old(self).lookup(id)->0@.push(x)
            } else {
                seq![x]
            },
            final(self).has(id),
    {
        match self.find(id) {
            Some(p) => {
                let ghost before = *self;
                let mut list = self.swap_at(p, Vec::new());
                list.push(x);
                let _ = self.swap_at(p, list);
                proof {
                    lemma_position_unique(*self, id, p as int);
                    assert forall|k: i64| #[trigger] self.has(k) <==> (before.has(k) || k == id) by {}
                    assert forall|k: i64| k != id implies #[trigger] self.lookup(k) == before.lookup(k) by {
                        if self.has(k) {
                            let q = self.position(k);
                            assert(self.ids@[q] == k);
                            lemma_position_unique(before, k, q);
                            assert(q != p);
                        }
                    }
                }
            },
            None => {
                let mut list = Vec::new();
                list.push(x);
                self.insert(id, list);
            },
        }
    }
}

/// Adds `x` to a strictly increasing list, keeping it strictly increasing
/// (nothing changes when `x` is already there).
pub fn insert_sorted_unique(list: &mut Vec<i64>, x: i64)
    requires
        strictly_increasing(old(list)@),
    ensures
        strictly_increasing(final(list)@),
        final(list)@.to_set() == old(list)@.to_set().insert(x),
{
    let mut pos: usize = 0;
    while pos < list.len() && list[pos] < x
        invariant
            pos <= list@.len(),
            forall|k: int| 0 <= k < pos ==> list@[k] < x,
        decreases list@.len() - pos,
    {
        pos = pos + 1;
    }
    if pos < list.len() && list[pos] == x {
        proof {
            assert(list@.to_set() =~= list@.to_set().insert(x)) by {
                assert(list@.contains(x)) by {
                    assert(list@[pos as int] == x);
                }
            }
        }
        return;
    }
    let ghost before = list@;
    list.insert(pos, x);
    proof {
        let after = list@;
        assert forall|a: int, b: int| 0 <= a < b < after.len() implies after[a] < after[b] by {
            if b < pos {
                assert(after[a] == before[a] && after[b] == before[b]);
            } else if b == pos {
                assert(after[a] == before[a]);
            } else if a == pos {
                assert(after[b] == before[b - 1]);
                if b - 1 > pos {
                    assert(before[pos as int] < before[b - 1]);
                }
            } else if a < pos {
                assert(after[a] == before[a] && after[b] == before[b - 1]);
            } else {
                assert(after[a] == before[a - 1] && after[b] == before[b - 1]);
            }
        }
        assert forall|y: i64| after.to_set().contains(y) <==> before.to_set().insert(x).contains(y) by {
            if after.contains(y) {
                let q = choose|q: int| 0 <= q < after.len() && after[q] == y;
                if q < pos {
                    assert(before[q] == y);
                } else if q > pos {
                    assert(before[q - 1] == y);
                }
            }
            if before.contains(y) {
                let q = choose|q: int| 0 <= q < before.len() && before[q] == y;
                if q < pos {
                    assert(after[q] == y);
                } else {
                    assert(after[q + 1] == y);
                }
            }
            if y == x {
                assert(after[pos as int] == x);
            }
        }
        assert(after.to_set() =~= before.to_set().insert(x));
    }
}

impl IdTable<Vec<i64>> {
    /// Adds `x` to the strictly increasing list stored under `id`.
    pub fn add_sorted(&mut self, id: i64, x: i64)
        requires
            old(self).wf(),
            forall|k: i64| #[trigger] old(self).has(k) ==> strictly_increasing(old(self).lookup(k)->0@),
        ensures
            final(self).wf(),
            forall|k: i64| #[trigger] final(self).has(k) <==> (old(self).has(k) || k == id),
            forall|k: i64| #[trigger] final(self).has(k) ==> strictly_increasing(final(self).lookup(k)->0@),
            forall|k: i64|
                k != id ==> #[trigger] final(self).lookup(k) == old(self).lookup(k),
            final(self).lookup(id)->0@.to_set() == if old(self).has(id) {
                old(self).lookup(id)->0@.to_set().insert(x)
            } else {
                set![x]
            },
    {
        match self.find(id) {
            Some(p) => {
                let ghost before = *self;
                let mut list = self.swap_at(p, Vec::new());
                insert_sorted_unique(&mut list, x);
                let _ = self.swap_at(p, list);
                proof {
                    lemma_position_unique(*self, id, p as int);
                    assert forall|k: i64| k != id implies #[trigger] self.lookup(k) == before.lookup(k) by {
                        if self.has(k) {
                            let q = self.position(k);
                            assert(self.ids@[q] == k);
                            lemma_position_unique(before, k, q);
                            assert(q != p);
                        }
                    }
                    assert forall|k: i64| #[trigger] self.has(k) implies strictly_increasing(self.lookup(k)->0@) by {
                        if k != id {
                            assert(before.has(k));
                        }
                    }
                }
            },
            None => {
                let mut list = Vec::new();
                list.push(x);
                proof {
                    assert(list@.to_set() =~= set![x]) by {
                        assert forall|y: i64| list@.to_set().contains(y) <==> y == x by {
                            if y == x {
                                assert(list@[0] == x);
                            }
                        }
                    }
                }
                self.insert(id, list);
            },
        }
    }
}

} // verus!
