use crate::replacer::{
    evictable_frames, lemma_evictable_after_insert, lemma_evictable_after_remove,
    lemma_least_rank_exists, Replacer,
};
use crate::typedef::FrameId;
use std::collections::HashMap;
use std::collections::VecDeque;
use vstd::prelude::*;

verus! {

/// What the replacer keeps about one frame: the timestamps of its last `k`
/// accesses, oldest first.
pub struct LrukNode {
    pub frame_id: FrameId,
    pub is_evictable: bool,
    pub history: VecDeque<u64>,
    pub k: usize,
}

/// The distance that stands for "infinitely long ago".
pub fn max_timestamp() -> (timestamp: u64)
    ensures
        timestamp == u64::MAX,
{
    u64::MAX
}

impl LrukNode {
    /// Whether the frame was accessed less than `k` times.
    pub open spec fn spec_has_infinite_backwards_k_distance(&self) -> bool {
        self.history@.len() < self.k
    }

    /// How long ago the `k`-th most recent access was: `current_timestamp`
    /// less its timestamp, or the longest distance there is if the frame was
    /// accessed less than `k` times.
    pub fn get_backwards_k_distance(&self, current_timestamp: u64) -> (distance: u64)
        requires
            !self.has_infinite_backwards_k_distance() ==> self.history@.len() > 0
                && self.history@[0] <= current_timestamp,
        ensures
            distance == (if self.has_infinite_backwards_k_distance() {
                u64::MAX
            } else {
                (current_timestamp - self.history@[0]) as u64
            }),
    {
        if self.has_infinite_backwards_k_distance() {
            return max_timestamp();
        }
        current_timestamp - self.get_kth_most_recent_timestamp()
    }

    #[verifier::when_used_as_spec(spec_has_infinite_backwards_k_distance)]
    pub fn has_infinite_backwards_k_distance(&self) -> (infinite: bool)
        ensures
            infinite == self.spec_has_infinite_backwards_k_distance(),
    {
        self.history.len() < self.k
    }

    /// The timestamp of the `k`-th most recent access: the oldest that the
    /// node still keeps.
    pub fn get_kth_most_recent_timestamp(&self) -> (timestamp: u64)
        requires
            !self.has_infinite_backwards_k_distance(),
            self.history@.len() > 0,
        ensures
            timestamp == self.history@[0],
    {
        self.history[0]
    }
}

/// How good a victim a frame with the access history `history` is: the less,
/// the better. A frame with less than `k` accesses comes before every frame
/// with `k`; within each group the older oldest access comes first.
pub open spec fn rank_of(history: Seq<u64>, k: usize) -> int {
    if history.len() < k {
        history[0] as int
    } else {
        0x1_0000_0000_0000_0000 + history[0]
    }
}

/// Evicts the evictable frame whose `k`-th most recent access lies furthest
/// back. A frame that was accessed less than `k` times counts as accessed
/// infinitely long ago; among such frames the one goes whose first access is
/// the oldest.
pub struct LrukReplacer {
    node_store: HashMap<FrameId, LrukNode>,
    evictable_size: usize,
    current_timestamp: u64,
    k: usize,
}

/// The candidate that a search for the victim holds: the frame, whether it
/// has less than `k` accesses, and its oldest access.
#[derive(Clone, Copy)]
struct Candidate {
    frame_id: FrameId,
    infinite: bool,
    oldest: u64,
}

impl Candidate {
    spec fn rank(self) -> int {
        if self.infinite {
            self.oldest as int
        } else {
            0x1_0000_0000_0000_0000 + self.oldest
        }
    }
}

impl LrukReplacer {
    /// The number of accesses that count.
    pub closed spec fn spec_k(&self) -> usize {
        self.k
    }

    /// The timestamp that the next access gets.
    pub closed spec fn clock(&self) -> u64 {
        self.current_timestamp
    }

    /// Whether the replacer tracks `frame_id`.
    pub closed spec fn tracks(&self, frame_id: FrameId) -> bool {
        self.node_store@.contains_key(frame_id)
    }

    /// The timestamps of the last `k` accesses to a tracked frame, oldest
    /// first.
    pub closed spec fn history_of(&self, frame_id: FrameId) -> Seq<u64> {
        self.node_store@[frame_id].history@
    }

    /// How good a victim a tracked frame is: the less, the better.
    pub open spec fn rank(&self, frame_id: FrameId) -> int {
        rank_of(self.history_of(frame_id), self.spec_k())
    }

    /// Whether `frame_id` is evictable and no evictable frame is a better
    /// victim.
    pub open spec fn is_best_victim(&self, frame_id: FrameId) -> bool {
        &&& evictable_frames(self.nodes()).contains(frame_id)
        &&& forall|g: FrameId| #[trigger]
            evictable_frames(self.nodes()).contains(g) ==> self.rank(frame_id) <= self.rank(g)
    }

    /// Whether `best` is the outcome of a search for the best victim.
    spec fn found_best(&self, best: Option<Candidate>) -> bool {
        forall|g: FrameId| #[trigger]
            evictable_frames(self.nodes()).contains(g) ==> (match best {
                Some(b) => b.rank() <= self.rank(g),
                None => false,
            })
    }

    /// No two frames have the same rank, so at most one is the best victim.
    pub proof fn lemma_best_victim_is_unique(&self, frame_id: FrameId)
        requires
            self.inv(),
            self.is_best_victim(frame_id),
        ensures
            self.victim() == Some(frame_id),
    {
        let chosen = choose|f: FrameId| self.is_best_victim(f);
        assert(evictable_frames(self.nodes()).contains(chosen));
        assert(evictable_frames(self.nodes()).contains(frame_id));
        assert(self.rank(chosen) == self.rank(frame_id));
        assert(self.node_store@.contains_key(chosen));
        assert(self.node_store@.contains_key(frame_id));
        assert(self.node_store@[chosen].history@[0] == self.node_store@[frame_id].history@[0]);
    }

    /// A replacer that looks at the last `k` accesses of each frame.
    pub fn new(k: usize) -> (replacer: LrukReplacer)
        requires
            k > 0,
        ensures
            replacer.inv(),
            replacer.nodes() == Map::<FrameId, bool>::empty(),
            replacer.clock() == 0,
            replacer.k() == k,
    {
        let replacer = LrukReplacer {
            node_store: HashMap::new(),
            evictable_size: 0,
            current_timestamp: 0,
            k,
        };
        assert(replacer.nodes() =~= Map::<FrameId, bool>::empty());
        assert(evictable_frames(replacer.nodes()) =~= Set::<FrameId>::empty());
        replacer
    }

    #[verifier::when_used_as_spec(spec_k)]
    pub fn k(&self) -> (k: usize)
        ensures
            k == self.spec_k(),
    {
        self.k
    }

    /// Hands out the current timestamp and moves the clock on.
    fn current_timestamp(&mut self) -> (timestamp: u64)
        requires
            old(self).current_timestamp < u64::MAX,
        ensures
            timestamp == old(self).current_timestamp,
            final(self).current_timestamp == old(self).current_timestamp + 1,
            final(self).node_store == old(self).node_store,
            final(self).evictable_size == old(self).evictable_size,
            final(self).k == old(self).k,
    {
        let old_timestamp = self.current_timestamp;
        self.current_timestamp = self.current_timestamp + 1;
        old_timestamp
    }

    /// Sets whether a tracked frame is evictable.
    fn set_evictable(&mut self, frame_id: FrameId, evictable: bool)
        requires
            old(self).inv(),
        ensures
            final(self).inv(),
            final(self).clock() == old(self).clock(),
            final(self).k() == old(self).k(),
            final(self).nodes() == (if old(self).nodes().contains_key(frame_id) {
                old(self).nodes().insert(frame_id, evictable)
            } else {
                old(self).nodes()
            }),
            forall|f: FrameId| final(self).tracks(f) == old(self).tracks(f),
            forall|f: FrameId| final(self).tracks(f) ==> final(self).history_of(f) == old(self).history_of(f),
    {
        let _nodes: usize = self.node_store.len();
        proof {
            assert(self.nodes().dom() =~= self.node_store@.dom());
            lemma_evictable_after_insert(self.nodes(), frame_id, evictable);
        }
        match self.node_store.remove(&frame_id) {
            Some(node) => {
                let was_evictable = node.is_evictable;
                proof {
                    if evictable && !was_evictable {
                        vstd::set_lib::lemma_len_subset(
                            evictable_frames(old(self).nodes()).insert(frame_id),
                            old(self).node_store@.dom(),
                        );
                    }
                    if !evictable && was_evictable {
                        assert(evictable_frames(old(self).nodes()).contains(frame_id));
                    }
                }
                self.node_store.insert(
                    frame_id,
                    LrukNode {
                        frame_id: node.frame_id,
                        is_evictable: evictable,
                        history: node.history,
                        k: node.k,
                    },
                );
                if evictable && !was_evictable {
                    self.evictable_size = self.evictable_size + 1;
                }
                if !evictable && was_evictable {
                    self.evictable_size = self.evictable_size - 1;
                }
                assert(self.node_store@.dom() =~= old(self).node_store@.dom());
                assert(self.nodes() =~= old(self).nodes().insert(frame_id, evictable));
                if evictable == was_evictable {
                    assert(old(self).nodes().insert(frame_id, evictable) =~= old(self).nodes());
                    assert(evictable_frames(self.nodes()) =~= evictable_frames(old(self).nodes()));
                }
            },
            None => {
                assert(self.node_store@ =~= old(self).node_store@);
                assert(self.nodes() =~= old(self).nodes());
            },
        }
    }
}

impl Replacer for LrukReplacer {
    closed spec fn nodes(&self) -> Map<FrameId, bool> {
        Map::new(
            |f: FrameId| self.node_store@.contains_key(f),
            |f: FrameId| self.node_store@[f].is_evictable,
        )
    }

    closed spec fn inv(&self) -> bool {
        &&& self.k > 0
        &&& self.node_store@.dom().finite()
        &&& self.evictable_size == evictable_frames(self.nodes()).len()
        &&& forall|f: FrameId| #[trigger]
            self.node_store@.contains_key(f) ==> {
                &&& self.node_store@[f].frame_id == f
                &&& self.node_store@[f].k == self.k
                &&& 1 <= self.node_store@[f].history@.len() <= self.k
            }
        &&& forall|f: FrameId, i: int|
            self.node_store@.contains_key(f) && 0 <= i < self.node_store@[f].history@.len()
                ==> #[trigger] self.node_store@[f].history@[i] < self.current_timestamp
        &&& forall|f: FrameId, g: FrameId, i: int, j: int|
            #![trigger self.node_store@[f].history@[i], self.node_store@[g].history@[j]]
            self.node_store@.contains_key(f) && self.node_store@.contains_key(g) && f != g && 0
                <= i < self.node_store@[f].history@.len() && 0 <= j
                < self.node_store@[g].history@.len() ==> self.node_store@[f].history@[i]
                != self.node_store@[g].history@[j]
    }

    open spec fn accesses_left(&self) -> nat {
        (u64::MAX - self.clock()) as nat
    }

    open spec fn victim(&self) -> Option<FrameId> {
        if exists|f: FrameId| self.is_best_victim(f) {
            Some(choose|f: FrameId| self.is_best_victim(f))
        } else {
            None
        }
    }

    proof fn lemma_tracks_finitely_many(&self) {
        assert(self.nodes().dom() =~= self.node_store@.dom());
    }

    proof fn lemma_victim_is_evictable(&self) {
        if exists|f: FrameId| self.is_best_victim(f) {
        } else {
            assert(self.nodes().dom() =~= self.node_store@.dom());
            vstd::set_lib::lemma_set_subset_finite(
                self.nodes().dom(),
                evictable_frames(self.nodes()),
            );
            if evictable_frames(self.nodes()).len() > 0 {
                let rank = |f: FrameId| self.rank(f);
                lemma_least_rank_exists(evictable_frames(self.nodes()), rank);
                let f = choose|f: FrameId|
                    evictable_frames(self.nodes()).contains(f) && forall|g: FrameId|
                        evictable_frames(self.nodes()).contains(g) ==> rank(f) <= #[trigger] rank(
                            g,
                        );
                assert forall|g: FrameId| #[trigger]
                    evictable_frames(self.nodes()).contains(g) implies self.rank(f) <= self.rank(
                    g,
                ) by {
                    assert(rank(f) <= rank(g));
                }
                assert(self.is_best_victim(f));
            } else {
                evictable_frames(self.nodes()).lemma_len0_is_empty();
            }
        }
    }

    fn unpin(&mut self, frame_id: FrameId)
        ensures
            final(self).clock() == old(self).clock(),
            forall|f: FrameId| final(self).tracks(f) == old(self).tracks(f),
            forall|f: FrameId| final(self).tracks(f) ==> final(self).history_of(f) == old(self).history_of(f),
    {
        self.set_evictable(frame_id, true);
    }

    fn pin(&mut self, frame_id: FrameId)
        ensures
            final(self).clock() == old(self).clock(),
            forall|f: FrameId| final(self).tracks(f) == old(self).tracks(f),
            forall|f: FrameId| final(self).tracks(f) ==> final(self).history_of(f) == old(self).history_of(f),
    {
        self.set_evictable(frame_id, false);
    }

    fn record_access(&mut self, frame_id: FrameId)
        ensures
            final(self).clock() == old(self).clock() + 1,
            final(self).k() == old(self).k(),
            forall|f: FrameId| final(self).tracks(f) == (old(self).tracks(f) || f == frame_id),
            forall|f: FrameId|
                old(self).tracks(f) && f != frame_id ==> final(self).history_of(f) == old(
                    self,
                ).history_of(f),
            final(self).history_of(frame_id) == (if !old(self).tracks(frame_id) {
                seq![old(self).clock()]
            } else if old(self).history_of(frame_id).len() < old(self).k() {
                old(self).history_of(frame_id).push(old(self).clock())
            } else {
                old(self).history_of(frame_id).push(old(self).clock()).drop_first()
            }),
    {
        let new_timestamp = self.current_timestamp();
        proof {
            assert(self.nodes().dom() =~= self.node_store@.dom());
            lemma_evictable_after_insert(self.nodes(), frame_id, true);
        }
        match self.node_store.remove(&frame_id) {
            Some(node) => {
                let ghost before = node.history@;
                let mut history = node.history;
                history.push_back(new_timestamp);
                if history.len() > node.k {
                    let _oldest = history.pop_front();
                }
                let ghost after = history@;
                proof {
                    assert(after.len() >= 1);
                    assert forall|i: int| 0 <= i < after.len() implies (after[i] == new_timestamp
                        || exists|j: int| 0 <= j < before.len() && after[i] == before[j]) by {
                        if before.len() + 1 > node.k {
                            if i + 1 < before.len() {
                                assert(after[i] == before[i + 1]);
                            }
                        } else {
                            if i < before.len() {
                                assert(after[i] == before[i]);
                            }
                        }
                    }
                }
                self.node_store.insert(
                    frame_id,
                    LrukNode {
                        frame_id: node.frame_id,
                        is_evictable: node.is_evictable,
                        history,
                        k: node.k,
                    },
                );
                proof {
                    assert(self.node_store@.dom() =~= old(self).node_store@.dom());
                    assert(self.nodes() =~= old(self).nodes());
                    assert forall|f: FrameId, i: int|
                        self.node_store@.contains_key(f) && 0 <= i
                            < self.node_store@[f].history@.len() implies #[trigger] self.node_store@[f].history@[i]
                        < self.current_timestamp by {
                        if f == frame_id {
                            if after[i] != new_timestamp {
                                let j = choose|j: int|
                                    0 <= j < before.len() && after[i] == before[j];
                                assert(old(self).node_store@[f].history@[j]
                                    < old(self).current_timestamp);
                            }
                        } else {
                            assert(old(self).node_store@[f].history@[i]
                                < old(self).current_timestamp);
                        }
                    }
                    assert forall|f: FrameId, g: FrameId, i: int, j: int|
                        #![trigger self.node_store@[f].history@[i], self.node_store@[g].history@[j]]
                        self.node_store@.contains_key(f) && self.node_store@.contains_key(g) && f
                            != g && 0 <= i < self.node_store@[f].history@.len() && 0 <= j
                            < self.node_store@[g].history@.len() implies self.node_store@[f].history@[i]
                        != self.node_store@[g].history@[j] by {
                        if f == frame_id {
                            assert(old(self).node_store@[g].history@[j]
                                < old(self).current_timestamp);
                            if after[i] != new_timestamp {
                                let m = choose|m: int|
                                    0 <= m < before.len() && after[i] == before[m];
                                assert(old(self).node_store@[f].history@[m] != old(
                                    self,
                                ).node_store@[g].history@[j]);
                            }
                        } else if g == frame_id {
                            assert(old(self).node_store@[f].history@[i]
                                < old(self).current_timestamp);
                            if after[j] != new_timestamp {
                                let m = choose|m: int|
                                    0 <= m < before.len() && after[j] == before[m];
                                assert(old(self).node_store@[f].history@[i] != old(
                                    self,
                                ).node_store@[g].history@[m]);
                            }
                        } else {
                            assert(old(self).node_store@[f].history@[i] != old(
                                self,
                            ).node_store@[g].history@[j]);
                        }
                    }
                    if before.len() < old(self).k {
                        assert(after =~= before.push(new_timestamp));
                    } else {
                        assert(after =~= before.push(new_timestamp).drop_first());
                    }
                }
            },
            None => {
                let mut history: VecDeque<u64> = VecDeque::new();
                history.push_back(new_timestamp);
                assert(history@ =~= seq![new_timestamp]);
                proof {
                    assert(self.node_store@ =~= old(self).node_store@);
                    assert(!evictable_frames(self.nodes()).contains(frame_id));
                    vstd::set_lib::lemma_len_subset(
                        evictable_frames(self.nodes()).insert(frame_id),
                        self.node_store@.dom().insert(frame_id),
                    );
                }
                self.node_store.insert(
                    frame_id,
                    LrukNode { frame_id, is_evictable: true, history, k: self.k },
                );
                let _nodes: usize = self.node_store.len();
                self.evictable_size = self.evictable_size + 1;
                proof {
                    assert(self.nodes() =~= old(self).nodes().insert(frame_id, true));
                    assert forall|f: FrameId, i: int|
                        self.node_store@.contains_key(f) && 0 <= i
                            < self.node_store@[f].history@.len() implies #[trigger] self.node_store@[f].history@[i]
                        < self.current_timestamp by {
                        if f != frame_id {
                            assert(old(self).node_store@[f].history@[i]
                                < old(self).current_timestamp);
                        }
                    }
                    assert forall|f: FrameId, g: FrameId, i: int, j: int|
                        #![trigger self.node_store@[f].history@[i], self.node_store@[g].history@[j]]
                        self.node_store@.contains_key(f) && self.node_store@.contains_key(g) && f
                            != g && 0 <= i < self.node_store@[f].history@.len() && 0 <= j
                            < self.node_store@[g].history@.len() implies self.node_store@[f].history@[i]
                        != self.node_store@[g].history@[j] by {
                        if f == frame_id {
                            assert(old(self).node_store@[g].history@[j]
                                < old(self).current_timestamp);
                        } else if g == frame_id {
                            assert(old(self).node_store@[f].history@[i]
                                < old(self).current_timestamp);
                        } else {
                            assert(old(self).node_store@[f].history@[i] != old(
                                self,
                            ).node_store@[g].history@[j]);
                        }
                    }
                }
            },
        }
    }

    fn evict(&mut self) -> (victim: Option<FrameId>)
        ensures
            final(self).clock() == old(self).clock(),
            final(self).k() == old(self).k(),
            victim matches Some(frame_id) ==> old(self).is_best_victim(frame_id),
            forall|f: FrameId| final(self).tracks(f) == (old(self).tracks(f) && Some(f) != victim),
            forall|f: FrameId| final(self).tracks(f) ==> final(self).history_of(f) == old(self).history_of(f),
    {
        let mut best: Option<Candidate> = None;
        for node in it: self.node_store.values()
            invariant
                self.inv(),
                *self == *old(self),
                it.seq().unref().to_set() == self.node_store@.values(),
                match best {
                    Some(b) => {
                        &&& self.node_store@.contains_key(b.frame_id)
                        &&& self.node_store@[b.frame_id].is_evictable
                        &&& b.rank() == self.rank(b.frame_id)
                        &&& forall|i: int|
                            0 <= i < it.index() && (#[trigger] it.seq()[i]).is_evictable
                                ==> b.rank() <= rank_of(it.seq()[i].history@, self.k)
                    },
                    None => forall|i: int|
                        0 <= i < it.index() ==> !(#[trigger] it.seq()[i]).is_evictable,
                },
                it.index() == it.seq().len() ==> self.found_best(best),
        {
            assert(it.seq().unref()[it.index()] == *node);
            assert(it.seq().unref().to_set().contains(*node));
            assert(self.node_store@.values().contains(*node));
            let ghost key = choose|k: FrameId|
                self.node_store@.contains_key(k) && self.node_store@[k] == *node;
            assert(self.node_store@.contains_key(key));
            if node.is_evictable {
                let candidate = Candidate {
                    frame_id: node.frame_id,
                    infinite: node.has_infinite_backwards_k_distance(),
                    oldest: node.history[0],
                };
                assert(candidate.rank() == rank_of(node.history@, self.k));
                let better = match best {
                    Some(b) => (candidate.infinite && !b.infinite) || (candidate.infinite
                        == b.infinite && candidate.oldest < b.oldest),
                    None => true,
                };
                if better {
                    best = Some(candidate);
                }
            }
            assert forall|g: FrameId|
                it.index() + 1 == it.seq().len() && #[trigger] evictable_frames(
                    self.nodes(),
                ).contains(g) implies (match best {
                Some(b) => b.rank() <= self.rank(g),
                None => false,
            }) by {
                let n = self.node_store@[g];
                assert(self.node_store@.values().contains(n));
                assert(it.seq().unref().to_set().contains(n));
                assert(exists|i: int|
                    0 <= i < it.seq().unref().len() && it.seq().unref()[i] == n);
                assert forall|i: int|
                    0 <= i < it.seq().unref().len() && it.seq().unref()[i]
                        == n implies (#[trigger] it.seq()[i]).is_evictable && rank_of(
                    it.seq()[i].history@,
                    self.k,
                ) == self.rank(g) by {}
            }
        }
        match best {
            Some(b) => {
                proof {
                    assert(self.nodes().dom() =~= self.node_store@.dom());
                    lemma_evictable_after_remove(self.nodes(), b.frame_id);
                    assert(evictable_frames(self.nodes()).contains(b.frame_id));
                    self.lemma_best_victim_is_unique(b.frame_id);
                }
                self.node_store.remove(&b.frame_id);
                self.evictable_size = self.evictable_size - 1;
                assert(self.nodes() =~= old(self).nodes().remove(b.frame_id));
                Some(b.frame_id)
            },
            None => {
                assert(evictable_frames(self.nodes()) =~= Set::<FrameId>::empty());
                assert forall|f: FrameId| !self.is_best_victim(f) by {
                    assert(!evictable_frames(self.nodes()).contains(f));
                }
                None
            },
        }
    }

    fn remove(&mut self, frame_id: FrameId)
        ensures
            final(self).clock() == old(self).clock(),
            final(self).k() == old(self).k(),
            forall|f: FrameId| final(self).tracks(f) == (old(self).tracks(f) && f != frame_id),
            forall|f: FrameId| final(self).tracks(f) ==> final(self).history_of(f) == old(self).history_of(f),
    {
        proof {
            assert(self.nodes().dom() =~= self.node_store@.dom());
            lemma_evictable_after_remove(self.nodes(), frame_id);
        }
        let removed = self.node_store.remove(&frame_id);
        if removed.is_some() {
            assert(evictable_frames(old(self).nodes()).contains(frame_id));
            self.evictable_size = self.evictable_size - 1;
        }
        assert(self.nodes() =~= old(self).nodes().remove(frame_id));
    }

    fn evictable_count(&self) -> (count: usize) {
        self.evictable_size
    }

    fn remaining_accesses(&self) -> (count: u64) {
        u64::MAX - self.current_timestamp
    }
}

} // verus!
