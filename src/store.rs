use vstd::prelude::*;

verus! {

/// A stable reference to an artifact at one path; handles are numbered in the
/// order their paths were first seen.
#[derive(Clone, Copy, Debug, PartialEq, Eq, Structural)]
pub struct ArtifactHandle {
    pub id: usize,
}

/// Maps each path ever asked for to the handle issued for it.
pub struct ArtifactStore {
    entries: Vec<(String, ArtifactHandle)>,
    map: Ghost<Map<Seq<char>, ArtifactHandle>>,
}

impl ArtifactStore {
    pub closed spec fn view(&self) -> Map<Seq<char>, ArtifactHandle> {
        self.map@
    }

    /// The number of handles issued so far.
    pub closed spec fn issued(&self) -> nat {
        self.entries@.len()
    }

    pub closed spec fn wf(&self) -> bool {
        &&& forall|i: int| 0 <= i < self.entries@.len() ==> #[trigger] self.entries@[i].1.id == i
        &&& forall|i: int|
            0 <= i < self.entries@.len() ==> {
                &&& self.map@.contains_key(#[trigger] self.entries@[i].0@)
                &&& self.map@[self.entries@[i].0@] == self.entries@[i].1
            }
        &&& forall|k: Seq<char>|
            #[trigger] self.map@.contains_key(k) ==> exists|i: int|
                0 <= i < self.entries@.len() && self.entries@[i].0@ == k
    }

    pub fn new() -> (r: Self)
        ensures
            r.wf(),
            r@ == Map::<Seq<char>, ArtifactHandle>::empty(),
            r.issued() == 0,
    {
        ArtifactStore { entries: Vec::new(), map: Ghost(Map::empty()) }
    }

    /// The handle issued for `path`, if any.
    pub fn get(&self, path: &String) -> (r: Option<ArtifactHandle>)
        requires
            self.wf(),
        ensures
            r == (if self@.contains_key(path@) {
                Some(self@[path@])
            } else {
                None::<ArtifactHandle>
            }),
    {
        let mut i: usize = 0;
        while i < self.entries.len()
            invariant
                self.wf(),
                i <= self.entries@.len(),
                forall|j: int| 0 <= j < i ==> self.entries@[j].0@ != path@,
            decreases self.entries@.len() - i,
        {
            if self.entries[i].0 == *path {
                return Some(self.entries[i].1);
            }
            i = i + 1;
        }
        proof {
            if self@.contains_key(path@) {
                let j = choose|j: int| 0 <= j < self.entries@.len() && self.entries@[j].0@ == path@;
                assert(self.entries@[j].0@ == path@);
            }
        }
        None
    }

    /// Returns the handle of `path`, issuing a fresh one the first time the path is seen.
    pub fn resolve_or_create(&mut self, path: &String) -> (r: ArtifactHandle)
        requires
            old(self).wf(),
        ensures
            resolve_step(*old(self), path@, r, *final(self)),
    {
        match self.get(path) {
            Some(h) => h,
            None => {
                let h = ArtifactHandle { id: self.entries.len() };
                let ghost old_entries = self.entries@;
                self.entries.push((path.clone(), h));
                self.map = Ghost(self.map@.insert(path@, h));
                assert forall|k: Seq<char>| #[trigger] self.map@.contains_key(k) implies exists|i: int|
                    0 <= i < self.entries@.len() && self.entries@[i].0@ == k by {
                    if k != path@ {
                        let i = choose|i: int| 0 <= i < old_entries.len() && old_entries[i].0@ == k;
                        assert(self.entries@[i] == old_entries[i]);
                    } else {
                        assert(self.entries@[old_entries.len() as int].0@ == k);
                    }
                }
                h
            },
        }
    }
}

/// What one call of `resolve_or_create` on `path` does to a store: a known path
/// gets its handle back and leaves the store as it was; a new path gets the next
/// handle in line and is recorded with it.
pub open spec fn resolve_step(
    before: ArtifactStore,
    path: Seq<char>,
    h: ArtifactHandle,
    after: ArtifactStore,
) -> bool {
    &&& after.wf()
    &&& if before@.contains_key(path) {
        &&& h == before@[path]
        &&& after@ == before@
        &&& after.issued() == before.issued()
    } else {
        &&& h.id == before.issued()
        &&& after@ == before@.insert(path, h)
        &&& after.issued() == before.issued() + 1
    }
}

/// Asking twice for one path gives one handle, and the second request changes nothing.
pub proof fn lemma_resolve_idempotent(
    s0: ArtifactStore,
    s1: ArtifactStore,
    s2: ArtifactStore,
    path: Seq<char>,
    h1: ArtifactHandle,
    h2: ArtifactHandle,
)
    requires
        s0.wf(),
        resolve_step(s0, path, h1, s1),
        resolve_step(s1, path, h2, s2),
    ensures
        h1 == h2,
        s2@ == s1@,
{
}

/// Distinct paths of a store hold distinct handles.
pub proof fn lemma_handles_distinct(s: ArtifactStore, p: Seq<char>, q: Seq<char>)
    requires
        s.wf(),
        s@.contains_key(p),
        s@.contains_key(q),
        p != q,
    ensures
        s@[p] != s@[q],
{
    let i = choose|i: int| 0 <= i < s.entries@.len() && s.entries@[i].0@ == p;
    let j = choose|j: int| 0 <= j < s.entries@.len() && s.entries@[j].0@ == q;
    assert(s.entries@[i].1.id == i);
    assert(s.entries@[j].1.id == j);
}

} // verus!
