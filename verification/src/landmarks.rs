use std::collections::HashMap;
use vstd::prelude::*;
use vstd::std_specs::iter::IteratorSpec;

verus! {

broadcast use vstd::std_specs::hash::group_hash_axioms;

/// Whether position `k` of `ids` is the first at which `id` occurs.
pub open spec fn first_occurrence(ids: Seq<usize>, id: usize, k: int) -> bool {
    &&& 0 <= k < ids.len()
    &&& ids[k] == id
    &&& forall|j: int| 0 <= j < k ==> ids[j] != id
}

/// The landmarks seen so far, each under the number of its tag, with the
/// pose (of type `P`) it was given when first seen.
pub struct LandmarkMap<P> {
    poses: HashMap<usize, P>,
}

impl<P> View for LandmarkMap<P> {
    type V = Map<usize, P>;

    /// The known landmarks, by tag number.
    closed spec fn view(&self) -> Map<usize, P> {
        self.poses@
    }
}

impl<P> LandmarkMap<P> {
    /// A map with no landmark.
    pub fn new() -> (m: Self)
        ensures
            m@ == Map::<usize, P>::empty(),
    {
        LandmarkMap { poses: HashMap::new() }
    }

    /// Whether the landmark with tag `id` is known.
    pub fn contains(&self, id: usize) -> (known: bool)
        ensures
            known == self@.contains_key(id),
    {
        self.poses.contains_key(&id)
    }

    /// The pose of the landmark with tag `id`, if it is known.
    pub fn get(&self, id: usize) -> (pose: Option<&P>)
        ensures
            match pose {
                Some(p) => self@.contains_key(id) && *p == self@[id],
                None => !self@.contains_key(id),
            },
    {
        self.poses.get(&id)
    }

    /// Records `pose` for the landmark with tag `id`, replacing what was there.
    pub fn insert(&mut self, id: usize, pose: P)
        ensures
            final(self)@ == old(self)@.insert(id, pose),
    {
        self.poses.insert(id, pose);
    }

    /// The number of known landmarks.
    pub fn len(&self) -> (n: usize)
        ensures
            n == self@.len(),
    {
        self.poses.len()
    }

    /// The tags of all known landmarks, each once, in no particular order.
    pub fn ids(&self) -> (ids: Vec<usize>)
        ensures
            ids@.to_set() == self@.dom(),
            ids@.no_duplicates(),
    {
        let ghost keys = vstd::std_specs::hash::spec_keys_iter(&self.poses).remaining().unref();
        let mut ids: Vec<usize> = Vec::new();
        for k in it: self.poses.keys()
            invariant
                it.seq().unref() == keys,
                ids@ == keys.take(it.index()),
        {
            ids.push(*k);
            assert(ids@ =~= keys.take(it.index() + 1));
        }
        assert(ids@ =~= keys);
        ids
    }

    /// The first position in `ids` (the tags seen in one camera frame, in
    /// detection order) that holds a known landmark: the landmark by which the
    /// robot locates itself. `None` when the frame shows no known landmark.
    pub fn first_known(&self, ids: &[usize]) -> (k: Option<usize>)
        ensures
            match k {
                Some(k) => k < ids@.len() && self@.contains_key(ids@[k as int])
                    && forall|j: int| 0 <= j < k ==> !self@.contains_key(#[trigger] ids@[j]),
                None => forall|j: int| 0 <= j < ids@.len() ==> !self@.contains_key(#[trigger] ids@[j]),
            },
    {
        let mut k: usize = 0;
        while k < ids.len()
            invariant
                k <= ids@.len(),
                forall|j: int| 0 <= j < k ==> !self@.contains_key(#[trigger] ids@[j]),
            decreases ids@.len() - k,
        {
            if self.contains(ids[k]) {
                return Some(k);
            }
            k = k + 1;
        }
        None
    }

    /// Adds the landmarks of one camera frame that are not known yet.
    /// `ids` holds the tags seen, in detection order; a new landmark gets the
    /// pose that `make_pose` gives for the first position at which its tag
    /// occurs. Known landmarks keep their poses.
    pub fn add_new_landmarks(&mut self, ids: &[usize], make_pose: impl Fn(usize) -> P)
        requires
            forall|k: usize| k < ids@.len() ==> call_requires(make_pose, (k,)),
        ensures
            final(self)@.dom() == old(self)@.dom().union(ids@.to_set()),
            forall|id: usize| #[trigger] old(self)@.contains_key(id) ==> final(self)@[id] == old(self)@[id],
            forall|id: usize| #[trigger] final(self)@.contains_key(id) && !old(self)@.contains_key(id)
                ==> exists|k: int| first_occurrence(ids@, id, k) && call_ensures(make_pose, (k as usize,), final(self)@[id]),
    {
        let ghost before = self@;
        let mut k: usize = 0;
        while k < ids.len()
            invariant
                k <= ids@.len(),
                forall|i: usize| i < ids@.len() ==> call_requires(make_pose, (i,)),
                self@.dom() == before.dom().union(ids@.take(k as int).to_set()),
                forall|id: usize| #[trigger] before.contains_key(id) ==> self@[id] == before[id],
                forall|id: usize| #[trigger] self@.contains_key(id) && !before.contains_key(id)
                    ==> exists|j: int| first_occurrence(ids@, id, j) && call_ensures(make_pose, (j as usize,), self@[id]),
            decreases ids@.len() - k,
        {
            let id = ids[k];
            let ghost prev = self@;
            assert(ids@.take(k + 1) == ids@.take(k as int).push(id));
            proof {
                ids@.take(k as int).lemma_push_to_set_commute(id);
            }
            if !self.contains(id) {
                let pose = make_pose(k);
                self.insert(id, pose);
                assert forall|j: int| 0 <= j < k implies ids@[j] != id by {
                    if ids@[j] == id {
                        assert(ids@.take(k as int)[j] == id);
                        assert(ids@.take(k as int).to_set().contains(id));
                    }
                }
                assert(first_occurrence(ids@, id, k as int));
            }
            k = k + 1;
            assert(self@.dom() =~= before.dom().union(ids@.take(k as int).to_set()));
        }
        assert(ids@.take(ids@.len() as int) =~= ids@);
    }
}

} // verus!
