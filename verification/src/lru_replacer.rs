use crate::replacer::{
    evictable_frames, lemma_evictable_after_insert, lemma_evictable_after_remove,
    lemma_least_rank_exists, Replacer,
};
use crate::typedef::FrameId;
use std::collections::HashMap;
use vstd::prelude::*;

verus! {

/// What the replacer keeps about one frame.
#[derive(Clone, Copy)]
pub struct LruNode {
    pub frame_id: FrameId,
    pub is_evictable: bool,
    pub last_accessed_timestamp: u64,
}

/// Evicts the evictable frame whose last access lies furthest back.
pub struct LruReplacer {
    node_store: HashMap<FrameId, LruNode>,
    evictable_count: usize,
    current_timestamp: u64,
}

impl LruReplacer {
    /// The node of every tracked frame.
    pub closed spec fn store(&self) -> Map<FrameId, LruNode> {
        self.node_store@
    }

    /// The timestamp that the next access gets.
    pub closed spec fn clock(&self) -> u64 {
        self.current_timestamp
    }

    /// When each tracked frame was last accessed.
    pub open spec fn last_access(&self) -> Map<FrameId, u64> {
        Map::new(
            |f: FrameId| self.store().contains_key(f),
            |f: FrameId| self.store()[f].last_accessed_timestamp,
        )
    }

    /// Whether `frame_id` is evictable and no evictable frame was accessed
    /// before it.
    pub open spec fn is_least_recent(&self, frame_id: FrameId) -> bool {
        &&& evictable_frames(self.nodes()).contains(frame_id)
        &&& forall|g: FrameId| #[trigger]
            evictable_frames(self.nodes()).contains(g) ==> self.last_access()[frame_id]
                <= self.last_access()[g]
    }

    /// Whether `best` is the outcome of a search for the evictable node that
    /// was accessed least recently.
    spec fn found_least_recent(&self, best: Option<LruNode>) -> bool {
        forall|g: FrameId| #[trigger]
            evictable_frames(self.nodes()).contains(g) ==> (match best {
                Some(b) => b.last_accessed_timestamp
                    <= self.node_store@[g].last_accessed_timestamp,
                None => false,
            })
    }

    /// No two accesses share a timestamp, so at most one frame is the least
    /// recently used one.
    pub proof fn lemma_least_recent_is_unique(&self, frame_id: FrameId)
        requires
            self.inv(),
            self.is_least_recent(frame_id),
        ensures
            self.victim() == Some(frame_id),
    {
        let chosen = choose|f: FrameId| self.is_least_recent(f);
        assert(evictable_frames(self.nodes()).contains(chosen));
        assert(evictable_frames(self.nodes()).contains(frame_id));
        assert(self.last_access()[chosen] == self.last_access()[frame_id]);
        assert(self.node_store@[chosen].last_accessed_timestamp
            == self.node_store@[frame_id].last_accessed_timestamp);
    }

    pub fn new() -> (replacer: LruReplacer)
        ensures
            replacer.inv(),
            replacer.store() == Map::<FrameId, LruNode>::empty(),
            replacer.nodes() == Map::<FrameId, bool>::empty(),
            replacer.clock() == 0,
    {
        let replacer = LruReplacer {
            node_store: HashMap::new(),
            evictable_count: 0,
            current_timestamp: 0,
        };
        assert(replacer.nodes() =~= Map::<FrameId, bool>::empty());
        assert(evictable_frames(replacer.nodes()) =~= Set::<FrameId>::empty());
        replacer
    }

    /// Hands out the current timestamp and moves the clock on.
    fn current_timestamp(&mut self) -> (timestamp: u64)
        requires
            old(self).current_timestamp < u64::MAX,
        ensures
            timestamp == old(self).current_timestamp,
            final(self).current_timestamp == old(self).current_timestamp + 1,
            final(self).node_store == old(self).node_store,
            final(self).evictable_count == old(self).evictable_count,
    {
        let old_timestamp = self.current_timestamp;
        self.current_timestamp = self.current_timestamp + 1;
        old_timestamp
    }
}

impl Replacer for LruReplacer {
    open spec fn nodes(&self) -> Map<FrameId, bool> {
        Map::new(
            |f: FrameId| self.store().contains_key(f),
            |f: FrameId| self.store()[f].is_evictable,
        )
    }

    closed spec fn inv(&self) -> bool {
        &&& self.node_store@.dom().finite()
        &&& self.evictable_count == evictable_frames(self.nodes()).len()
        &&& forall|f: FrameId| #[trigger]
            self.node_store@.contains_key(f) ==> {
                &&& self.node_store@[f].frame_id == f
                &&& self.node_store@[f].last_accessed_timestamp < self.current_timestamp
            }
        &&& forall|f: FrameId, g: FrameId|
            #![trigger self.node_store@[f], self.node_store@[g]]
            self.node_store@.contains_key(f) && self.node_store@.contains_key(g) && f != g
                ==> self.node_store@[f].last_accessed_timestamp
                != self.node_store@[g].last_accessed_timestamp
    }

    open spec fn accesses_left(&self) -> nat {
        (u64::MAX - self.clock()) as nat
    }

    open spec fn victim(&self) -> Option<FrameId> {
        if exists|f: FrameId| self.is_least_recent(f) {
            Some(choose|f: FrameId| self.is_least_recent(f))
        } else {
            None
        }
    }

    proof fn lemma_victim_is_evictable(&self) {
        if exists|f: FrameId| self.is_least_recent(f) {
        } else {
            assert(self.nodes().dom() =~= self.node_store@.dom());
            vstd::set_lib::lemma_set_subset_finite(
                self.nodes().dom(),
                evictable_frames(self.nodes()),
            );
            if evictable_frames(self.nodes()).len() > 0 {
                let rank = |f: FrameId| self.last_access()[f] as int;
                lemma_least_rank_exists(evictable_frames(self.nodes()), rank);
                let f = choose|f: FrameId|
                    evictable_frames(self.nodes()).contains(f) && forall|g: FrameId|
                        evictable_frames(self.nodes()).contains(g) ==> rank(f) <= #[trigger] rank(
                            g,
                        );
                assert forall|g: FrameId| #[trigger]
                    evictable_frames(self.nodes()).contains(g) implies self.last_access()[f]
                    <= self.last_access()[g] by {
                    assert(rank(f) <= rank(g));
                }
                assert(self.is_least_recent(f));
            } else {
                evictable_frames(self.nodes()).lemma_len0_is_empty();
            }
        }
    }

    proof fn lemma_tracks_finitely_many(&self) {
        assert(self.nodes().dom() =~= self.node_store@.dom());
    }

    fn unpin(&mut self, frame_id: FrameId)
        ensures
            final(self).last_access() == old(self).last_access(),
            final(self).clock() == old(self).clock(),
    {
        let found: Option<LruNode> = match self.node_store.get(&frame_id) {
            Some(node) => Some(*node),
            None => None,
        };
        if let Some(node) = found {
            if !node.is_evictable {
                proof {
                    assert(self.nodes().dom() =~= self.node_store@.dom());
                    lemma_evictable_after_insert(self.nodes(), frame_id, true);
                    vstd::set_lib::lemma_len_subset(
                        evictable_frames(self.nodes()).insert(frame_id),
                        self.node_store@.dom(),
                    );
                }
                let _nodes: usize = self.node_store.len();
                self.node_store.insert(
                    frame_id,
                    LruNode {
                        frame_id,
                        is_evictable: true,
                        last_accessed_timestamp: node.last_accessed_timestamp,
                    },
                );
                self.evictable_count = self.evictable_count + 1;
                assert(self.nodes() =~= old(self).nodes().insert(frame_id, true));
                assert(self.last_access() =~= old(self).last_access());
            } else {
                assert(self.nodes() =~= old(self).nodes().insert(frame_id, true));
            }
        }
    }

    fn pin(&mut self, frame_id: FrameId)
        ensures
            final(self).last_access() == old(self).last_access(),
            final(self).clock() == old(self).clock(),
    {
        let found: Option<LruNode> = match self.node_store.get(&frame_id) {
            Some(node) => Some(*node),
            None => None,
        };
        if let Some(node) = found {
            if node.is_evictable {
                proof {
                    assert(self.nodes().dom() =~= self.node_store@.dom());
                    lemma_evictable_after_insert(self.nodes(), frame_id, false);
                    assert(evictable_frames(self.nodes()).contains(frame_id));
                }
                self.node_store.insert(
                    frame_id,
                    LruNode {
                        frame_id,
                        is_evictable: false,
                        last_accessed_timestamp: node.last_accessed_timestamp,
                    },
                );
                self.evictable_count = self.evictable_count - 1;
                assert(self.nodes() =~= old(self).nodes().insert(frame_id, false));
                assert(self.last_access() =~= old(self).last_access());
            } else {
                assert(self.nodes() =~= old(self).nodes().insert(frame_id, false));
            }
        }
    }

    fn record_access(&mut self, frame_id: FrameId)
        ensures
            final(self).clock() == old(self).clock() + 1,
            final(self).last_access() == old(self).last_access().insert(frame_id, old(self).clock()),
    {
        let new_timestamp = self.current_timestamp();
        let found: Option<LruNode> = match self.node_store.get(&frame_id) {
            Some(node) => Some(*node),
            None => None,
        };
        match found {
            Some(node) => {
                self.node_store.insert(
                    frame_id,
                    LruNode {
                        frame_id,
                        is_evictable: node.is_evictable,
                        last_accessed_timestamp: new_timestamp,
                    },
                );
                assert(self.nodes() =~= old(self).nodes());
            },
            None => {
                proof {
                    assert(self.nodes().dom() =~= self.node_store@.dom());
                    lemma_evictable_after_insert(self.nodes(), frame_id, true);
                    assert(!evictable_frames(self.nodes()).contains(frame_id));
                    vstd::set_lib::lemma_len_subset(
                        evictable_frames(self.nodes()).insert(frame_id),
                        self.node_store@.dom().insert(frame_id),
                    );
                }
                self.node_store.insert(
                    frame_id,
                    LruNode { frame_id, is_evictable: true, last_accessed_timestamp: new_timestamp },
                );
                let _nodes: usize = self.node_store.len();
                self.evictable_count = self.evictable_count + 1;
                assert(self.nodes() =~= old(self).nodes().insert(frame_id, true));
            },
        }
        assert(self.last_access() =~= old(self).last_access().insert(frame_id, old(self).clock()));
    }

    fn evict(&mut self) -> (victim: Option<FrameId>)
        ensures
            final(self).clock() == old(self).clock(),
            match victim {
                Some(frame_id) => {
                    &&& old(self).is_least_recent(frame_id)
                    &&& final(self).last_access() == old(self).last_access().remove(frame_id)
                },
                None => final(self).last_access() == old(self).last_access(),
            },
    {
        let mut best: Option<LruNode> = None;
        for node in it: self.node_store.values()
            invariant
                self.inv(),
                *self == *old(self),
                it.seq().unref().to_set() == self.node_store@.values(),
                match best {
                    Some(b) => {
                        &&& self.node_store@.contains_key(b.frame_id)
                        &&& self.node_store@[b.frame_id] == b
                        &&& b.is_evictable
                        &&& forall|i: int|
                            0 <= i < it.index() && (#[trigger] it.seq()[i]).is_evictable
                                ==> b.last_accessed_timestamp
                                <= it.seq()[i].last_accessed_timestamp
                    },
                    None => forall|i: int|
                        0 <= i < it.index() ==> !(#[trigger] it.seq()[i]).is_evictable,
                },
                it.index() == it.seq().len() ==> self.found_least_recent(best),
        {
            assert(it.seq().unref()[it.index()] == *node);
            assert(it.seq().unref().to_set().contains(*node));
            assert(self.node_store@.values().contains(*node));
            let ghost key = choose|k: FrameId|
                self.node_store@.contains_key(k) && self.node_store@[k] == *node;
            assert(self.node_store@.contains_key(key));
            if node.is_evictable {
                let better = match best {
                    Some(b) => node.last_accessed_timestamp < b.last_accessed_timestamp,
                    None => true,
                };
                if better {
                    best = Some(*node);
                }
            }
            assert forall|g: FrameId|
                it.index() + 1 == it.seq().len() && #[trigger] evictable_frames(
                    self.nodes(),
                ).contains(g) implies (match best {
                Some(b) => b.last_accessed_timestamp
                    <= self.node_store@[g].last_accessed_timestamp,
                None => false,
            }) by {
                let n = self.node_store@[g];
                assert(self.node_store@.values().contains(n));
                assert(it.seq().unref().to_set().contains(n));
                assert(exists|i: int|
                    0 <= i < it.seq().unref().len() && it.seq().unref()[i] == n);
                assert forall|i: int|
                    0 <= i < it.seq().unref().len() && it.seq().unref()[i]
                        == n implies (#[trigger] it.seq()[i]).is_evictable by {}
            }
        }
        match best {
            Some(b) => {
                proof {
                    assert(self.nodes().dom() =~= self.node_store@.dom());
                    lemma_evictable_after_remove(self.nodes(), b.frame_id);
                    assert(evictable_frames(self.nodes()).contains(b.frame_id));
                }
                proof {
                    self.lemma_least_recent_is_unique(b.frame_id);
                }
                self.node_store.remove(&b.frame_id);
                self.evictable_count = self.evictable_count - 1;
                assert(self.nodes() =~= old(self).nodes().remove(b.frame_id));
                assert(self.last_access() =~= old(self).last_access().remove(b.frame_id));
                Some(b.frame_id)
            },
            None => {
                assert(evictable_frames(self.nodes()) =~= Set::<FrameId>::empty());
                assert forall|f: FrameId| !self.is_least_recent(f) by {
                    assert(!evictable_frames(self.nodes()).contains(f));
                }
                None
            },
        }
    }

    fn remove(&mut self, frame_id: FrameId)
        ensures
            final(self).clock() == old(self).clock(),
            final(self).last_access() == old(self).last_access().remove(frame_id),
    {
        proof {
            assert(self.nodes().dom() =~= self.node_store@.dom());
            lemma_evictable_after_remove(self.nodes(), frame_id);
        }
        let removed = self.node_store.remove(&frame_id);
        if removed.is_some() {
            assert(evictable_frames(old(self).nodes()).contains(frame_id));
            self.evictable_count = self.evictable_count - 1;
        }
        assert(self.nodes() =~= old(self).nodes().remove(frame_id));
        assert(self.last_access() =~= old(self).last_access().remove(frame_id));
    }

    fn evictable_count(&self) -> (count: usize) {
        self.evictable_count
    }

    fn remaining_accesses(&self) -> (count: u64) {
        u64::MAX - self.current_timestamp
    }
}

} // verus!
