//! The append-only store of history nodes, keyed by id.
use vstd::prelude::*;
use crate::types::{HistoryMessage, NodeView};

verus! {

/// Maps an id to the history node stored under it.  Nodes are never removed;
/// a later insert under an already present id silently replaces the earlier
/// node (last insert wins).  One store belongs to exactly one session.
pub struct HistoryStore {
    nodes: Vec<HistoryMessage>,
}

impl HistoryStore {
    /// Well-formedness: no two stored nodes share an id.
    pub closed spec fn wf(&self) -> bool {
        forall|i: int, j: int|
            0 <= i < self.nodes@.len() && 0 <= j < self.nodes@.len() && i != j
                ==> self.nodes@[i].id@ != self.nodes@[j].id@
    }

    /// Whether some node is stored under `id`.
    pub closed spec fn spec_contains(&self, id: Seq<char>) -> bool {
        exists|i: int| 0 <= i < self.nodes@.len() && self.nodes@[i].id@ == id
    }

    /// The node stored under `id`, if any.
    pub closed spec fn spec_get(&self, id: Seq<char>) -> Option<NodeView> {
        if self.spec_contains(id) {
            Some(
                self.nodes@[choose|i: int|
                    0 <= i < self.nodes@.len() && self.nodes@[i].id@ == id]@,
            )
        } else {
            None
        }
    }

    /// How many nodes are stored.
    pub closed spec fn spec_len(&self) -> nat {
        self.nodes@.len()
    }

    /// The node stored at position `i`, if ids are unique, is what lookup by
    /// its id returns.
    proof fn lemma_get_at(&self, i: int)
        requires
            self.wf(),
            0 <= i < self.nodes@.len(),
        ensures
            self.spec_contains(self.nodes@[i].id@),
            self.spec_get(self.nodes@[i].id@) == Some(self.nodes@[i]@),
    {
        let id = self.nodes@[i].id@;
        assert(self.spec_contains(id)) by {
            assert(0 <= i < self.nodes@.len() && self.nodes@[i].id@ == id);
        }
        let j = choose|j: int| 0 <= j < self.nodes@.len() && self.nodes@[j].id@ == id;
        assert(j == i) by {
            if j != i {
                assert(self.nodes@[j].id@ != self.nodes@[i].id@);
            }
        }
    }

    /// An empty store.
    pub fn new() -> (s: HistoryStore)
        ensures
            s.wf(),
            s.spec_len() == 0,
            forall|k: Seq<char>| !s.spec_contains(k),
    {
        HistoryStore { nodes: Vec::new() }
    }

    pub fn len(&self) -> (n: usize)
        ensures
            n == self.spec_len(),
    {
        self.nodes.len()
    }

    /// Look the node stored under `id` up.
    pub fn get(&self, id: &String) -> (r: Option<&HistoryMessage>)
        requires
            self.wf(),
        ensures
            match r {
                Some(n) => self.spec_get(id@) == Some(n@),
                None => self.spec_get(id@) is None,
            },
    {
        let mut i: usize = 0;
        while i < self.nodes.len()
            invariant
                self.wf(),
                0 <= i <= self.nodes@.len(),
                forall|j: int| 0 <= j < i ==> self.nodes@[j].id@ != id@,
            decreases self.nodes@.len() - i,
        {
            if self.nodes[i].id == *id {
                proof {
                    self.lemma_get_at(i as int);
                }
                return Some(&self.nodes[i]);
            }
            i += 1;
        }
        proof {
            assert(!self.spec_contains(id@));
        }
        None
    }

    /// Insert a node under its id; an earlier node under the same id is
    /// replaced, any other entry is untouched.
    pub fn insert(&mut self, node: HistoryMessage)
        requires
            old(self).wf(),
        ensures
            final(self).wf(),
            final(self).spec_contains(node.id@),
            final(self).spec_get(node.id@) == Some(node@),
            forall|k: Seq<char>|
                k != node.id@ ==> final(self).spec_get(k) == old(self).spec_get(k),
            forall|k: Seq<char>|
                k != node.id@ ==> final(self).spec_contains(k) == old(self).spec_contains(k),
            old(self).spec_contains(node.id@) ==> final(self).spec_len() == old(self).spec_len(),
            !old(self).spec_contains(node.id@) ==> final(self).spec_len() == old(self).spec_len()
                + 1,
    {
        let ghost old_self = *old(self);
        let mut i: usize = 0;
        while i < self.nodes.len()
            invariant
                old_self == *old(self),
                old_self.wf(),
                *self == old_self,
                0 <= i <= self.nodes@.len(),
                forall|j: int| 0 <= j < i ==> self.nodes@[j].id@ != node.id@,
            decreases self.nodes@.len() - i,
        {
            if self.nodes[i].id == node.id {
                let ghost replaced_at = i as int;
                self.nodes.remove(i);
                self.nodes.insert(i, node);
                proof {
                    assert(self.nodes@ =~= old_self.nodes@.update(replaced_at, node));
                    self.lemma_after_update(old_self, replaced_at, node);
                }
                return ;
            }
            i += 1;
        }
        self.nodes.push(node);
        proof {
            self.lemma_after_push(old_self, node);
        }
    }

    /// What every lookup sees after the node at `i` (sharing `node`'s id) was
    /// replaced by `node`.
    proof fn lemma_after_update(&self, prev: HistoryStore, i: int, node: HistoryMessage)
        requires
            prev.wf(),
            0 <= i < prev.nodes@.len(),
            prev.nodes@[i].id@ == node.id@,
            self.nodes@ == prev.nodes@.update(i, node),
        ensures
            self.wf(),
            self.spec_contains(node.id@),
            self.spec_get(node.id@) == Some(node@),
            forall|k: Seq<char>| k != node.id@ ==> self.spec_get(k) == prev.spec_get(k),
            forall|k: Seq<char>| k != node.id@ ==> self.spec_contains(k) == prev.spec_contains(k),
            self.spec_len() == prev.spec_len(),
    {
        assert(self.wf());
        self.lemma_get_at(i);
        assert(self.spec_get(node.id@) == Some(node@));
        assert forall|k: Seq<char>| k != node.id@ implies self.spec_contains(k)
            == prev.spec_contains(k) by {
            if prev.spec_contains(k) {
                let j = choose|j: int|
                    0 <= j < prev.nodes@.len() && prev.nodes@[j].id@ == k;
                assert(j != i);
                assert(self.nodes@[j].id@ == k);
            }
            if self.spec_contains(k) {
                let j = choose|j: int|
                    0 <= j < self.nodes@.len() && self.nodes@[j].id@ == k;
                assert(j != i);
                assert(prev.nodes@[j].id@ == k);
            }
        }
        assert forall|k: Seq<char>| k != node.id@ implies self.spec_get(k) == prev.spec_get(k) by {
            if prev.spec_contains(k) {
                let j = choose|j: int|
                    0 <= j < prev.nodes@.len() && prev.nodes@[j].id@ == k;
                assert(j != i);
                prev.lemma_get_at(j);
                self.lemma_get_at(j);
            }
        }
    }

    /// What every lookup sees after a node under a new id was appended.
    proof fn lemma_after_push(&self, prev: HistoryStore, node: HistoryMessage)
        requires
            prev.wf(),
            !prev.spec_contains(node.id@),
            self.nodes@ == prev.nodes@.push(node),
        ensures
            self.wf(),
            self.spec_contains(node.id@),
            self.spec_get(node.id@) == Some(node@),
            forall|k: Seq<char>| k != node.id@ ==> self.spec_get(k) == prev.spec_get(k),
            forall|k: Seq<char>| k != node.id@ ==> self.spec_contains(k) == prev.spec_contains(k),
            self.spec_len() == prev.spec_len() + 1,
    {
        let n = prev.nodes@.len() as int;
        assert forall|i: int, j: int|
            0 <= i < self.nodes@.len() && 0 <= j < self.nodes@.len() && i != j implies self.nodes@[i].id@
            != self.nodes@[j].id@ by {
            if i < n && j < n {
                assert(prev.nodes@[i].id@ != prev.nodes@[j].id@);
            } else if i == n {
                assert(prev.spec_contains(prev.nodes@[j].id@)) by {
                    assert(0 <= j < prev.nodes@.len() && prev.nodes@[j].id@ == prev.nodes@[j].id@);
                }
            } else {
                assert(prev.spec_contains(prev.nodes@[i].id@)) by {
                    assert(0 <= i < prev.nodes@.len() && prev.nodes@[i].id@ == prev.nodes@[i].id@);
                }
            }
        }
        self.lemma_get_at(n);
        assert forall|k: Seq<char>| k != node.id@ implies self.spec_contains(k)
            == prev.spec_contains(k) by {
            if prev.spec_contains(k) {
                let j = choose|j: int|
                    0 <= j < prev.nodes@.len() && prev.nodes@[j].id@ == k;
                assert(self.nodes@[j].id@ == k);
            }
            if self.spec_contains(k) {
                let j = choose|j: int|
                    0 <= j < self.nodes@.len() && self.nodes@[j].id@ == k;
                assert(j != n);
                assert(prev.nodes@[j].id@ == k);
            }
        }
        assert forall|k: Seq<char>| k != node.id@ implies self.spec_get(k) == prev.spec_get(k) by {
            if prev.spec_contains(k) {
                let j = choose|j: int|
                    0 <= j < prev.nodes@.len() && prev.nodes@[j].id@ == k;
                prev.lemma_get_at(j);
                self.lemma_get_at(j);
            }
        }
    }
}

} // verus!
