use vstd::prelude::*;

use crate::store::{resolve_step, ArtifactHandle, ArtifactStore};

verus! {

/// What the registry remembers of a watched source: the handle of its
/// settings-bearing load, and the output directory its compiles write to.
pub struct WatchEntry {
    pub source: String,
    pub handle: ArtifactHandle,
    pub out_dir: String,
}

/// Holds the handles of shader outputs and of the watched shader sources, so that a
/// change to a source can recompile it to the output it was first asked for.
pub struct RustGpuRegistry {
    watch_files: bool,
    outputs: ArtifactStore,
    sources: ArtifactStore,
    watched: Vec<WatchEntry>,
    table: Ghost<Map<Seq<char>, (ArtifactHandle, Seq<char>)>>,
}

impl RustGpuRegistry {
    /// Whether this registry watches sources.
    pub closed spec fn watches(&self) -> bool {
        self.watch_files
    }

    /// The store of output handles.
    pub closed spec fn output_store(&self) -> ArtifactStore {
        self.outputs
    }

    /// The store of source handles.
    pub closed spec fn source_store(&self) -> ArtifactStore {
        self.sources
    }

    /// Each watched source with its handle and output directory.
    pub closed spec fn view(&self) -> Map<Seq<char>, (ArtifactHandle, Seq<char>)> {
        self.table@
    }

    pub closed spec fn wf(&self) -> bool {
        &&& self.outputs.wf()
        &&& self.sources.wf()
        &&& forall|i: int|
            0 <= i < self.watched@.len() ==> {
                &&& self.table@.contains_key(#[trigger] self.watched@[i].source@)
                &&& self.table@[self.watched@[i].source@] == (
                self.watched@[i].handle,
                self.watched@[i].out_dir@,
            )
            }
        &&& forall|k: Seq<char>|
            #[trigger] self.table@.contains_key(k) ==> exists|i: int|
                0 <= i < self.watched@.len() && self.watched@[i].source@ == k
        &&& forall|i: int, j: int|
            0 <= i < j < self.watched@.len() ==> #[trigger] self.watched@[i].source@
                != #[trigger] self.watched@[j].source@
    }

    /// An empty registry; `watch_files` says whether the platform can watch files.
    pub fn new(watch_files: bool) -> (r: Self)
        ensures
            r.wf(),
            r.watches() == watch_files,
            r@ == Map::<Seq<char>, (ArtifactHandle, Seq<char>)>::empty(),
            r.output_store()@ == Map::<Seq<char>, ArtifactHandle>::empty(),
            r.source_store()@ == Map::<Seq<char>, ArtifactHandle>::empty(),
    {
        RustGpuRegistry {
            watch_files,
            outputs: ArtifactStore::new(),
            sources: ArtifactStore::new(),
            watched: Vec::new(),
            table: Ghost(Map::empty()),
        }
    }

    /// Position of `source` among the watched entries.
    fn find(&self, source: &String) -> (r: Option<usize>)
        requires
            self.wf(),
        ensures
            match r {
                Some(i) => i < self.watched@.len() && self.watched@[i as int].source@ == source@,
                None => !self@.contains_key(source@),
            },
    {
        let mut i: usize = 0;
        while i < self.watched.len()
            invariant
                self.wf(),
                i <= self.watched@.len(),
                forall|j: int| 0 <= j < i ==> self.watched@[j].source@ != source@,
            decreases self.watched@.len() - i,
        {
            if self.watched[i].source == *source {
                return Some(i);
            }
            i = i + 1;
        }
        proof {
            if self@.contains_key(source@) {
                let j = choose|j: int|
                    0 <= j < self.watched@.len() && self.watched@[j].source@ == source@;
                assert(self.watched@[j].source@ == source@);
            }
        }
        None
    }

    /// Records `source` with its handle and output directory, replacing what was
    /// recorded for it before.
    fn record(&mut self, source: &String, handle: ArtifactHandle, out_dir: &String)
        requires
            old(self).wf(),
        ensures
            final(self).wf(),
            final(self)@ == old(self)@.insert(source@, (handle, out_dir@)),
            final(self).watch_files == old(self).watch_files,
            final(self).outputs == old(self).outputs,
            final(self).sources == old(self).sources,
    {
        let entry = WatchEntry { source: source.clone(), handle, out_dir: out_dir.clone() };
        let ghost old_watched = self.watched@;
        let ghost old_table = self.table@;
        match self.find(source) {
            Some(i) => {
                self.watched.set(i, entry);
                self.table = Ghost(self.table@.insert(source@, (handle, out_dir@)));
                assert forall|k: Seq<char>| #[trigger] self.table@.contains_key(k) implies exists|
                    j: int,
                | 0 <= j < self.watched@.len() && self.watched@[j].source@ == k by {
                    if k != source@ {
                        let j = choose|j: int|
                            0 <= j < old_watched.len() && old_watched[j].source@ == k;
                        assert(self.watched@[j] == old_watched[j]);
                    } else {
                        assert(self.watched@[i as int].source@ == k);
                    }
                }
                assert forall|a: int|
                    0 <= a < self.watched@.len() implies {
                    &&& self.table@.contains_key(#[trigger] self.watched@[a].source@)
                    &&& self.table@[self.watched@[a].source@] == (
                    self.watched@[a].handle,
                    self.watched@[a].out_dir@,
                )
                } by {
                    if a != i {
                        assert(self.watched@[a] == old_watched[a]);
                        assert(old_watched[a].source@ != old_watched[i as int].source@);
                    }
                }
            },
            None => {
                self.watched.push(entry);
                self.table = Ghost(self.table@.insert(source@, (handle, out_dir@)));
                assert forall|k: Seq<char>| #[trigger] self.table@.contains_key(k) implies exists|
                    j: int,
                | 0 <= j < self.watched@.len() && self.watched@[j].source@ == k by {
                    if k != source@ {
                        let j = choose|j: int|
                            0 <= j < old_watched.len() && old_watched[j].source@ == k;
                        assert(self.watched@[j] == old_watched[j]);
                    } else {
                        assert(self.watched@[old_watched.len() as int].source@ == k);
                    }
                }
                assert forall|a: int, b: int|
                    0 <= a < b < self.watched@.len() implies #[trigger] self.watched@[a].source@
                    != #[trigger] self.watched@[b].source@ by {
                    if b == old_watched.len() {
                        assert(old_table.contains_key(old_watched[a].source@));
                    }
                }
            },
        }
    }

    /// Returns the handle of the output at `out_dir`. Where sources are watched, it also
    /// loads `path` itself with `out_dir` as its setting, and records that handle for
    /// `path`, so that a change to the source recompiles it into `out_dir`.
    pub fn load(&mut self, path: &String, out_dir: &String) -> (r: ArtifactHandle)
        requires
            old(self).wf(),
        ensures
            load_step(*old(self), path@, out_dir@, r, *final(self)),
    {
        let ghost before = *self;
        let shader = self.outputs.resolve_or_create(out_dir);
        assert(self.wf());
        if self.watch_files {
            let h = self.sources.resolve_or_create(path);
            assert(self.watched@ == before.watched@);
            assert(self.table@ == before.table@);
            assert(self.outputs.wf());
            assert(self.wf());
            self.record(path, h, out_dir);
            assert(resolve_step(before.source_store(), path@, h, self.source_store()));
        }
        shader
    }

    /// The handle of the output at `out_dir`, if it was asked for.
    pub fn output_handle(&self, out_dir: &String) -> (r: Option<ArtifactHandle>)
        requires
            self.wf(),
        ensures
            r == (if self.output_store()@.contains_key(out_dir@) {
                Some(self.output_store()@[out_dir@])
            } else {
                None::<ArtifactHandle>
            }),
    {
        self.outputs.get(out_dir)
    }

    /// The output directory recorded for the watched source `path`, which a change to
    /// that source recompiles into.
    pub fn watched_out_dir(&self, path: &String) -> (r: Option<String>)
        requires
            self.wf(),
        ensures
            match r {
                Some(d) => self@.contains_key(path@) && d@ == self@[path@].1,
                None => !self@.contains_key(path@),
            },
    {
        match self.find(path) {
            Some(i) => Some(self.watched[i].out_dir.clone()),
            None => None,
        }
    }

    /// The handle recorded for the watched source `path`.
    pub fn watched_handle(&self, path: &String) -> (r: Option<ArtifactHandle>)
        requires
            self.wf(),
        ensures
            match r {
                Some(h) => self@.contains_key(path@) && h == self@[path@].0,
                None => !self@.contains_key(path@),
            },
    {
        match self.find(path) {
            Some(i) => Some(self.watched[i].handle),
            None => None,
        }
    }
}

/// What one `load` of source `path` into `out_dir` does: the output handle is
/// resolved in the output store; with watching on, the source is resolved in the
/// source store and recorded with `out_dir`; with it off, neither the source store
/// nor the table of watched sources changes.
pub open spec fn load_step(
    before: RustGpuRegistry,
    path: Seq<char>,
    out_dir: Seq<char>,
    r: ArtifactHandle,
    after: RustGpuRegistry,
) -> bool {
    &&& after.wf()
    &&& after.watches() == before.watches()
    &&& resolve_step(before.output_store(), out_dir, r, after.output_store())
    &&& if before.watches() {
        exists|h: ArtifactHandle|
            {
                &&& resolve_step(before.source_store(), path, h, after.source_store())
                &&& after@ == before@.insert(path, (h, out_dir))
            }
    } else {
        &&& after.source_store() == before.source_store()
        &&& after@ == before@
    }
}

/// Without file watching, loading never adds to the table of watched sources, and
/// loading the same output twice, from any sources, yields one handle.
pub proof fn lemma_unwatched_load_keeps_identity(
    r0: RustGpuRegistry,
    r1: RustGpuRegistry,
    r2: RustGpuRegistry,
    p1: Seq<char>,
    p2: Seq<char>,
    out_dir: Seq<char>,
    h1: ArtifactHandle,
    h2: ArtifactHandle,
)
    requires
        r0.wf(),
        !r0.watches(),
        load_step(r0, p1, out_dir, h1, r1),
        load_step(r1, p2, out_dir, h2, r2),
    ensures
        r1@ == r0@,
        r2@ == r0@,
        h1 == h2,
{
}

/// Loading a source twice into the same output yields the same output handle, and
/// the second load leaves the output store as the first left it.
pub proof fn lemma_load_idempotent(
    r0: RustGpuRegistry,
    r1: RustGpuRegistry,
    r2: RustGpuRegistry,
    path: Seq<char>,
    out_dir: Seq<char>,
    h1: ArtifactHandle,
    h2: ArtifactHandle,
)
    requires
        r0.wf(),
        load_step(r0, path, out_dir, h1, r1),
        load_step(r1, path, out_dir, h2, r2),
    ensures
        h1 == h2,
        r2.output_store()@ == r1.output_store()@,
        r2@ == r1@,
{
    if r0.watches() {
        let a = choose|h: ArtifactHandle|
            {
                &&& resolve_step(r0.source_store(), path, h, r1.source_store())
                &&& r1@ == r0@.insert(path, (h, out_dir))
            };
        let b = choose|h: ArtifactHandle|
            {
                &&& resolve_step(r1.source_store(), path, h, r2.source_store())
                &&& r2@ == r1@.insert(path, (h, out_dir))
            };
        assert(r1.source_store()@.contains_key(path));
        assert(a == b);
        assert(r2@ =~= r1@);
    }
}

} // verus!
