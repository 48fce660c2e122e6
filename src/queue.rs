use vstd::prelude::*;

use crate::handles::{compare_keys, key_lt, lemma_key_order, MeshGroupKey};
use crate::mesh::Mesh;

verus! {

/// The meshes queued under one key, in submission order.
pub struct MeshGroup {
    pub key: MeshGroupKey,
    pub meshes: Vec<Mesh>,
}

/// The meshes queued under `k` in `groups` (empty when `k` has no group).
pub open spec fn lookup(groups: Seq<MeshGroup>, k: MeshGroupKey) -> Seq<Mesh>
    decreases groups.len(),
{
    if groups.len() == 0 {
        Seq::empty()
    } else if groups.last().key == k {
        groups.last().meshes@
    } else {
        lookup(groups.drop_last(), k)
    }
}

/// How many meshes `groups` holds in all.
pub open spec fn total_meshes(groups: Seq<MeshGroup>) -> int
    decreases groups.len(),
{
    if groups.len() == 0 {
        0
    } else {
        total_meshes(groups.drop_last()) + groups.last().meshes@.len()
    }
}

proof fn lemma_total_update(s: Seq<MeshGroup>, i: int, g: MeshGroup)
    requires
        0 <= i < s.len(),
    ensures
        total_meshes(s.update(i, g)) == total_meshes(s) - s[i].meshes@.len() + g.meshes@.len(),
    decreases s.len(),
{
    if i < s.len() - 1 {
        assert(s.update(i, g).drop_last() == s.drop_last().update(i, g));
        lemma_total_update(s.drop_last(), i, g);
    } else {
        assert(s.update(i, g).drop_last() == s.drop_last());
    }
}

proof fn lemma_total_insert(s: Seq<MeshGroup>, i: int, g: MeshGroup)
    requires
        0 <= i <= s.len(),
    ensures
        total_meshes(s.insert(i, g)) == total_meshes(s) + g.meshes@.len(),
    decreases s.len(),
{
    if i < s.len() {
        assert(s.insert(i, g).drop_last() == s.drop_last().insert(i, g));
        lemma_total_insert(s.drop_last(), i, g);
    } else {
        assert(s.insert(i, g).drop_last() == s);
    }
}

/// Groups in strictly ascending key order, none of them empty.
pub open spec fn groups_sorted(groups: Seq<MeshGroup>) -> bool {
    &&& forall|i: int, j: int|
        0 <= i < j < groups.len() ==> #[trigger] key_lt(groups[i].key, groups[j].key)
    &&& forall|i: int| 0 <= i < groups.len() ==> #[trigger] groups[i].meshes@.len() > 0
}

pub proof fn lemma_lookup_at(groups: Seq<MeshGroup>, i: int)
    requires
        groups_sorted(groups),
        0 <= i < groups.len(),
    ensures
        lookup(groups, groups[i].key) == groups[i].meshes@,
    decreases groups.len(),
{
    if i < groups.len() - 1 {
        let last = groups.len() - 1;
        assert(key_lt(groups[i].key, groups[last].key));
        lemma_key_order(groups[i].key, groups[last].key, groups[last].key);
        assert(groups.drop_last()[i] == groups[i]);
        lemma_lookup_at(groups.drop_last(), i);
    }
}

pub proof fn lemma_lookup_absent(groups: Seq<MeshGroup>, k: MeshGroupKey)
    requires
        forall|i: int| 0 <= i < groups.len() ==> groups[i].key != k,
    ensures
        lookup(groups, k) == Seq::<Mesh>::empty(),
    decreases groups.len(),
{
    if groups.len() > 0 {
        assert(groups.last() == groups[groups.len() - 1]);
        assert forall|i: int| 0 <= i < groups.drop_last().len() implies groups.drop_last()[i].key
            != k by {
            assert(groups.drop_last()[i] == groups[i]);
        }
        lemma_lookup_absent(groups.drop_last(), k);
    }
}

/// The draw submissions of one frame, grouped by key and kept in key order.
pub struct RenderQueue {
    pub groups: Vec<MeshGroup>,
}

impl RenderQueue {
    pub open spec fn wf(&self) -> bool {
        groups_sorted(self.groups@)
    }

    /// The meshes queued under `k`.
    pub open spec fn meshes_for(&self, k: MeshGroupKey) -> Seq<Mesh> {
        lookup(self.groups@, k)
    }

    pub fn new() -> (r: RenderQueue)
        ensures
            r.wf(),
            r.groups@.len() == 0,
    {
        RenderQueue { groups: Vec::new() }
    }

    /// Appends `mesh` to the group of `key`, creating the group where absent.
    pub fn push(&mut self, key: MeshGroupKey, mesh: Mesh)
        requires
            old(self).wf(),
        ensures
            final(self).wf(),
            total_meshes(final(self).groups@) == total_meshes(old(self).groups@) + 1,
            forall|k: MeshGroupKey| #[trigger]
                final(self).meshes_for(k) == if k == key {
                    old(self).meshes_for(k).push(mesh)
                } else {
                    old(self).meshes_for(k)
                },
    {
        let ghost g0 = self.groups@;
        let mut i: usize = 0;
        while i < self.groups.len() && compare_keys(&self.groups[i].key, &key) < 0
            invariant
                i <= self.groups@.len(),
                self.groups@ == g0,
                forall|j: int| 0 <= j < i ==> key_lt(#[trigger] g0[j].key, key),
            decreases self.groups@.len() - i,
        {
            i = i + 1;
        }
        proof {
            assert forall|j: int| i <= j < g0.len() implies !key_lt(#[trigger] g0[j].key, key) by {
                if j > i {
                    assert(key_lt(g0[i as int].key, g0[j].key));
                    lemma_key_order(g0[i as int].key, g0[j].key, key);
                }
            }
        }
        if i < self.groups.len() && compare_keys(&self.groups[i].key, &key) == 0 {
            let mut g = self.groups.remove(i);
            g.meshes.push(mesh);
            self.groups.insert(i, g);
            proof {
                let g1 = self.groups@;
                assert(g1 == g0.update(i as int, g));
                lemma_total_update(g0, i as int, g);
                assert forall|a: int, b: int| 0 <= a < b < g1.len() implies #[trigger] key_lt(
                    g1[a].key,
                    g1[b].key,
                ) by {
                    assert(key_lt(g0[a].key, g0[b].key));
                }
                assert forall|a: int| 0 <= a < g1.len() implies #[trigger] g1[a].meshes@.len()
                    > 0 by {
                    assert(g0[a].meshes@.len() > 0);
                }
                assert forall|k: MeshGroupKey| #[trigger]
                    lookup(g1, k) == if k == key {
                        lookup(g0, k).push(mesh)
                    } else {
                        lookup(g0, k)
                    } by {
                    lemma_lookup_at(g0, i as int);
                    lemma_lookup_at(g1, i as int);
                    if k != key {
                        let idx = choose_index(g0, k);
                        if 0 <= idx < g0.len() {
                            lemma_lookup_at(g0, idx);
                            lemma_lookup_at(g1, idx);
                        } else {
                            lemma_lookup_absent(g0, k);
                            lemma_lookup_absent(g1, k);
                        }
                    }
                }
            }
        } else {
            let mut v: Vec<Mesh> = Vec::new();
            v.push(mesh);
            let g = MeshGroup { key, meshes: v };
            self.groups.insert(i, g);
            proof {
                let g1 = self.groups@;
                assert(g1 == g0.insert(i as int, g));
                lemma_total_insert(g0, i as int, g);
                assert forall|j: int| 0 <= j < g0.len() implies g0[j].key != key by {
                    if j >= i {
                        lemma_key_order(g0[j].key, key, key);
                        if j > i {
                            assert(key_lt(g0[i as int].key, g0[j].key));
                            lemma_key_order(key, g0[i as int].key, g0[j].key);
                        }
                    } else {
                        lemma_key_order(g0[j].key, key, key);
                    }
                }
                assert forall|a: int, b: int| 0 <= a < b < g1.len() implies #[trigger] key_lt(
                    g1[a].key,
                    g1[b].key,
                ) by {
                    if a < i && b < i {
                        assert(key_lt(g0[a].key, g0[b].key));
                    } else if a < i && b == i {
                    } else if a < i {
                        assert(key_lt(g0[a].key, key));
                        lemma_key_order(g0[a].key, key, g0[b - 1].key);
                        lemma_key_order(key, g0[b - 1].key, g0[b - 1].key);
                        assert(g0[b - 1].key != key);
                        if b - 1 > i {
                            assert(key_lt(g0[i as int].key, g0[b - 1].key));
                        }
                        lemma_key_order(g0[a].key, key, g0[b - 1].key);
                    } else if a == i {
                        lemma_key_order(key, g0[b - 1].key, g0[b - 1].key);
                        assert(g0[b - 1].key != key);
                    } else {
                        assert(key_lt(g0[a - 1].key, g0[b - 1].key));
                    }
                }
                assert forall|a: int| 0 <= a < g1.len() implies #[trigger] g1[a].meshes@.len()
                    > 0 by {
                    if a < i {
                        assert(g1[a] == g0[a]);
                    } else if a > i {
                        assert(g1[a] == g0[a - 1]);
                    }
                }
                assert forall|k: MeshGroupKey| #[trigger]
                    lookup(g1, k) == if k == key {
                        lookup(g0, k).push(mesh)
                    } else {
                        lookup(g0, k)
                    } by {
                    if k == key {
                        lemma_lookup_absent(g0, k);
                        lemma_lookup_at(g1, i as int);
                        assert(g.meshes@ == seq![mesh]);
                    } else {
                        let idx = choose_index(g0, k);
                        if 0 <= idx < g0.len() {
                            lemma_lookup_at(g0, idx);
                            if idx < i {
                                assert(g1[idx] == g0[idx]);
                                lemma_lookup_at(g1, idx);
                            } else {
                                assert(g1[idx + 1] == g0[idx]);
                                lemma_lookup_at(g1, idx + 1);
                            }
                        } else {
                            lemma_lookup_absent(g0, k);
                            assert forall|j: int| 0 <= j < g1.len() implies g1[j].key != k by {
                                if j < i {
                                    assert(g1[j] == g0[j]);
                                } else if j > i {
                                    assert(g1[j] == g0[j - 1]);
                                }
                            }
                            lemma_lookup_absent(g1, k);
                        }
                    }
                }
            }
        }
    }

    /// Hands out every queued group, in key order, and leaves the queue empty.
    pub fn take_all(&mut self) -> (r: Vec<MeshGroup>)
        requires
            old(self).wf(),
        ensures
            r@ == old(self).groups@,
            groups_sorted(r@),
            final(self).wf(),
            final(self).groups@.len() == 0,
    {
        let mut out: Vec<MeshGroup> = Vec::new();
        std::mem::swap(&mut out, &mut self.groups);
        out
    }
}

/// Some group of `groups` is keyed `k`.
pub open spec fn has_key(groups: Seq<MeshGroup>, k: MeshGroupKey) -> bool {
    exists|i: int| 0 <= i < groups.len() && groups[i].key == k
}

/// The order of the groups depends on their keys alone: two queues holding
/// groups under the same keys list those keys in the same order, whatever
/// order the meshes were submitted in.
pub proof fn law_group_order_depends_on_keys(g1: Seq<MeshGroup>, g2: Seq<MeshGroup>)
    requires
        groups_sorted(g1),
        groups_sorted(g2),
        forall|k: MeshGroupKey| has_key(g1, k) <==> has_key(g2, k),
    ensures
        g1.len() == g2.len(),
        forall|i: int| 0 <= i < g1.len() ==> g1[i].key == g2[i].key,
    decreases g1.len(),
{
    if g1.len() == 0 {
        if g2.len() > 0 {
            assert(has_key(g2, g2[0].key));
        }
    } else if g2.len() == 0 {
        assert(has_key(g1, g1[0].key));
    } else {
        let n1 = g1.len() - 1;
        let n2 = g2.len() - 1;
        let a = g1[n1].key;
        let b = g2[n2].key;
        assert(has_key(g1, a));
        assert(has_key(g2, b));
        let j = choose|j: int| 0 <= j < g2.len() && g2[j].key == a;
        let i = choose|i: int| 0 <= i < g1.len() && g1[i].key == b;
        if a != b {
            if j < n2 {
                assert(key_lt(g2[j].key, g2[n2].key));
            }
            if i < n1 {
                assert(key_lt(g1[i].key, g1[n1].key));
            }
            lemma_key_order(a, b, a);
        }
        let d1 = g1.drop_last();
        let d2 = g2.drop_last();
        assert forall|x: int, y: int| 0 <= x < y < d1.len() implies #[trigger] key_lt(
            d1[x].key,
            d1[y].key,
        ) by {
            assert(key_lt(g1[x].key, g1[y].key));
        }
        assert forall|x: int, y: int| 0 <= x < y < d2.len() implies #[trigger] key_lt(
            d2[x].key,
            d2[y].key,
        ) by {
            assert(key_lt(g2[x].key, g2[y].key));
        }
        assert forall|x: int| 0 <= x < d1.len() implies #[trigger] d1[x].meshes@.len() > 0 by {
            assert(g1[x].meshes@.len() > 0);
        }
        assert forall|x: int| 0 <= x < d2.len() implies #[trigger] d2[x].meshes@.len() > 0 by {
            assert(g2[x].meshes@.len() > 0);
        }
        assert forall|k: MeshGroupKey| has_key(d1, k) <==> has_key(d2, k) by {
            if has_key(d1, k) {
                let x = choose|x: int| 0 <= x < d1.len() && d1[x].key == k;
                assert(key_lt(g1[x].key, a));
                lemma_key_order(k, a, a);
                assert(has_key(g1, k));
                assert(has_key(g2, k));
                let y = choose|y: int| 0 <= y < g2.len() && g2[y].key == k;
                assert(y != n2);
                assert(d2[y].key == k);
            }
            if has_key(d2, k) {
                let y = choose|y: int| 0 <= y < d2.len() && d2[y].key == k;
                assert(key_lt(g2[y].key, b));
                lemma_key_order(k, b, b);
                assert(has_key(g2, k));
                assert(has_key(g1, k));
                let x = choose|x: int| 0 <= x < g1.len() && g1[x].key == k;
                assert(x != n1);
                assert(d1[x].key == k);
            }
        }
        law_group_order_depends_on_keys(d1, d2);
        assert forall|x: int| 0 <= x < g1.len() implies g1[x].key == g2[x].key by {
            if x < n1 {
                assert(d1[x] == g1[x]);
                assert(d2[x] == g2[x]);
            }
        }
    }
}

/// The position of the group keyed `k`, or `groups.len()` when there is none.
pub open spec fn choose_index(groups: Seq<MeshGroup>, k: MeshGroupKey) -> int {
    if exists|i: int| 0 <= i < groups.len() && groups[i].key == k {
        choose|i: int| 0 <= i < groups.len() && groups[i].key == k
    } else {
        groups.len() as int
    }
}

} // verus!
