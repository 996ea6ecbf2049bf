use crate::typedef::FrameId;
use vstd::prelude::*;

verus! {

/// The frames that a replacer may evict: those it tracks and holds evictable.
pub open spec fn evictable_frames(nodes: Map<FrameId, bool>) -> Set<FrameId> {
    Set::new(|f: FrameId| nodes.contains_key(f) && nodes[f])
}

/// Among finitely many frames, and at least one, some frame has the least
/// rank.
pub proof fn lemma_least_rank_exists(frames: Set<FrameId>, rank: spec_fn(FrameId) -> int)
    requires
        frames.finite(),
        frames.len() > 0,
    ensures
        exists|f: FrameId|
            frames.contains(f) && forall|g: FrameId|
                frames.contains(g) ==> rank(f) <= #[trigger] rank(g),
    decreases frames.len(),
{
    let x = frames.choose();
    let rest = frames.remove(x);
    if rest.len() == 0 {
        rest.lemma_len0_is_empty();
        assert forall|g: FrameId| frames.contains(g) implies rank(x) <= #[trigger] rank(g) by {
            if g != x {
                assert(rest.contains(g));
            }
        }
    } else {
        lemma_least_rank_exists(rest, rank);
        let m = choose|f: FrameId|
            rest.contains(f) && forall|g: FrameId| rest.contains(g) ==> rank(f) <= #[trigger] rank(g);
        let best = if rank(x) <= rank(m) {
            x
        } else {
            m
        };
        assert forall|g: FrameId| frames.contains(g) implies rank(best) <= #[trigger] rank(g) by {
            if g != x {
                assert(rest.contains(g));
            }
        }
    }
}

/// The evictable frames after a frame was set to `evictable`.
pub proof fn lemma_evictable_after_insert(nodes: Map<FrameId, bool>, f: FrameId, evictable: bool)
    requires
        nodes.dom().finite(),
    ensures
        evictable_frames(nodes).finite(),
        evictable_frames(nodes.insert(f, evictable)) == (if evictable {
            evictable_frames(nodes).insert(f)
        } else {
            evictable_frames(nodes).remove(f)
        }),
{
    vstd::set_lib::lemma_set_subset_finite(nodes.dom(), evictable_frames(nodes));
    if evictable {
        assert(evictable_frames(nodes.insert(f, evictable)) =~= evictable_frames(nodes).insert(f));
    } else {
        assert(evictable_frames(nodes.insert(f, evictable)) =~= evictable_frames(nodes).remove(f));
    }
}

/// The evictable frames after a frame was removed.
pub proof fn lemma_evictable_after_remove(nodes: Map<FrameId, bool>, f: FrameId)
    requires
        nodes.dom().finite(),
    ensures
        evictable_frames(nodes).finite(),
        evictable_frames(nodes.remove(f)) == evictable_frames(nodes).remove(f),
{
    vstd::set_lib::lemma_set_subset_finite(nodes.dom(), evictable_frames(nodes));
    assert(evictable_frames(nodes.remove(f)) =~= evictable_frames(nodes).remove(f));
}

/// A replacement policy: it tracks frames, knows which of them may be evicted,
/// and picks the victim.
pub trait Replacer {
    /// The frames that the replacer tracks, each with whether it is evictable.
    spec fn nodes(&self) -> Map<FrameId, bool>;

    /// What holds of the replacer between calls.
    spec fn inv(&self) -> bool;

    /// How many accesses the replacer can still record.
    spec fn accesses_left(&self) -> nat;

    /// The frame that the policy would evict next, if any frame is evictable.
    spec fn victim(&self) -> Option<FrameId>;

    /// A replacer tracks finitely many frames.
    proof fn lemma_tracks_finitely_many(&self)
        requires
            self.inv(),
        ensures
            self.nodes().dom().finite(),
    ;

    /// The victim is an evictable frame, and there is one whenever a frame
    /// is evictable.
    proof fn lemma_victim_is_evictable(&self)
        requires
            self.inv(),
        ensures
            match self.victim() {
                Some(frame_id) => evictable_frames(self.nodes()).contains(frame_id),
                None => evictable_frames(self.nodes()) == Set::<FrameId>::empty(),
            },
    ;

    /// Marks a tracked frame as evictable.
    fn unpin(&mut self, frame_id: FrameId)
        requires
            old(self).inv(),
        ensures
            final(self).inv(),
            final(self).accesses_left() == old(self).accesses_left(),
            final(self).nodes() == (if old(self).nodes().contains_key(frame_id) {
                old(self).nodes().insert(frame_id, true)
            } else {
                old(self).nodes()
            }),
    ;

    /// Marks a tracked frame as not evictable.
    fn pin(&mut self, frame_id: FrameId)
        requires
            old(self).inv(),
        ensures
            final(self).inv(),
            final(self).accesses_left() == old(self).accesses_left(),
            final(self).nodes() == (if old(self).nodes().contains_key(frame_id) {
                old(self).nodes().insert(frame_id, false)
            } else {
                old(self).nodes()
            }),
    ;

    /// Records that a frame was accessed now; a frame that was not tracked
    /// yet is tracked from now on, and evictable.
    fn record_access(&mut self, frame_id: FrameId)
        requires
            old(self).inv(),
            old(self).accesses_left() > 0,
        ensures
            final(self).inv(),
            final(self).accesses_left() >= old(self).accesses_left() - 1,
            final(self).nodes() == (if old(self).nodes().contains_key(frame_id) {
                old(self).nodes()
            } else {
                old(self).nodes().insert(frame_id, true)
            }),
    ;

    /// Picks the evictable frame that the policy prefers and stops tracking
    /// it; `None` if no frame is evictable.
    fn evict(&mut self) -> (victim: Option<FrameId>)
        requires
            old(self).inv(),
        ensures
            final(self).inv(),
            final(self).accesses_left() == old(self).accesses_left(),
            victim == old(self).victim(),
            match victim {
                Some(frame_id) => {
                    &&& evictable_frames(old(self).nodes()).contains(frame_id)
                    &&& final(self).nodes() == old(self).nodes().remove(frame_id)
                },
                None => {
                    &&& evictable_frames(old(self).nodes()) == Set::<FrameId>::empty()
                    &&& final(self).nodes() == old(self).nodes()
                },
            },
    ;

    /// Stops tracking a frame, which must be evictable if it is tracked.
    fn remove(&mut self, frame_id: FrameId)
        requires
            old(self).inv(),
            old(self).nodes().contains_key(frame_id) ==> old(self).nodes()[frame_id],
        ensures
            final(self).inv(),
            final(self).accesses_left() == old(self).accesses_left(),
            final(self).nodes() == old(self).nodes().remove(frame_id),
    ;

    /// Number of frames that may be evicted.
    fn evictable_count(&self) -> (count: usize)
        requires
            self.inv(),
        ensures
            count == evictable_frames(self.nodes()).len(),
    ;

    /// How many accesses the replacer can still record.
    fn remaining_accesses(&self) -> (count: u64)
        requires
            self.inv(),
        ensures
            count == self.accesses_left(),
    ;
}

} // verus!
