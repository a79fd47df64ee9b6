//! The per-Dockerfile lock store: the simpler alternate mode that keeps, per
//! build file path, its content hash plus a modification-time and size
//! snapshot. The snapshot only serves as a fast path that avoids rehashing;
//! a hash mismatch is the authoritative change signal.
use vstd::prelude::*;

use crate::strutil::str_eq;

verus! {

/// The persisted snapshot for one build file.
#[derive(Debug)]
pub struct DockerfileLock {
    pub content_hash: String,
    pub modified_time: u64,
    pub size: u64,
}

#[verifier::ext_equal]
pub ghost struct DockerfileLockView {
    pub content_hash: Seq<char>,
    pub modified_time: u64,
    pub size: u64,
}

impl DeepView for DockerfileLock {
    type V = DockerfileLockView;

    open spec fn deep_view(&self) -> DockerfileLockView {
        DockerfileLockView {
            content_hash: self.content_hash@,
            modified_time: self.modified_time,
            size: self.size,
        }
    }
}

/// The alternate store: a format version and one snapshot per build file
/// path. As with the canonical store, a single writer at a time is assumed.
#[derive(Debug)]
pub struct SimpleLockfile {
    pub version: u64,
    pub dockerfiles: Vec<(String, DockerfileLock)>,
}

#[verifier::ext_equal]
pub ghost struct SimpleLockfileView {
    pub version: u64,
    pub dockerfiles: Seq<(Seq<char>, DockerfileLockView)>,
}

impl DeepView for SimpleLockfile {
    type V = SimpleLockfileView;

    open spec fn deep_view(&self) -> SimpleLockfileView {
        SimpleLockfileView { version: self.version, dockerfiles: self.dockerfiles.deep_view() }
    }
}

/// The snapshot stored under `path`, taking the first entry when a path is
/// repeated.
pub open spec fn lookup_simple(
    s: Seq<(Seq<char>, DockerfileLockView)>,
    path: Seq<char>,
) -> Option<DockerfileLockView>
    decreases s.len(),
{
    if s.len() == 0 {
        None
    } else if s[0].0 == path {
        Some(s[0].1)
    } else {
        lookup_simple(s.drop_first(), path)
    }
}

proof fn lemma_lookup_simple_at(s: Seq<(Seq<char>, DockerfileLockView)>, path: Seq<char>, i: int)
    requires
        0 <= i < s.len(),
        s[i].0 == path,
        forall|k: int| 0 <= k < i ==> (#[trigger] s[k]).0 != path,
    ensures
        lookup_simple(s, path) == Some(s[i].1),
    decreases i,
{
    if i > 0 {
        lemma_lookup_simple_at(s.drop_first(), path, i - 1);
    }
}

proof fn lemma_lookup_simple_none(s: Seq<(Seq<char>, DockerfileLockView)>, path: Seq<char>)
    requires
        forall|k: int| 0 <= k < s.len() ==> (#[trigger] s[k]).0 != path,
    ensures
        lookup_simple(s, path) is None,
    decreases s.len(),
{
    if s.len() > 0 {
        lemma_lookup_simple_none(s.drop_first(), path);
    }
}

/// The fast path holds when a snapshot exists and both its modification time
/// and its size match what was observed.
pub open spec fn spec_quick_match(
    lf: SimpleLockfileView,
    path: Seq<char>,
    modified_time: u64,
    size: u64,
) -> bool {
    match lookup_simple(lf.dockerfiles, path) {
        None => false,
        Some(l) => l.modified_time == modified_time && l.size == size,
    }
}

/// The authoritative signal: no snapshot for `path`, or a stored hash that
/// differs from the current one.
pub open spec fn spec_simple_changed(
    lf: SimpleLockfileView,
    path: Seq<char>,
    current_hash: Seq<char>,
) -> bool {
    match lookup_simple(lf.dockerfiles, path) {
        None => true,
        Some(l) => l.content_hash != current_hash,
    }
}

impl SimpleLockfile {
    /// An empty store at the current format version.
    pub fn new() -> (r: Self)
        ensures
            r.deep_view().version == 1,
            r.deep_view().dockerfiles == Seq::<(Seq<char>, DockerfileLockView)>::empty(),
    {
        let r = SimpleLockfile { version: 1, dockerfiles: Vec::new() };
        proof {
            assert(r.deep_view().dockerfiles =~= Seq::<(Seq<char>, DockerfileLockView)>::empty());
        }
        r
    }

    /// Returns the snapshot stored under `path`, if any.
    pub fn get(&self, path: &str) -> (r: Option<&DockerfileLock>)
        ensures
            match r {
                Some(l) => lookup_simple(self.deep_view().dockerfiles, path@) == Some(
                    l.deep_view(),
                ),
                None => lookup_simple(self.deep_view().dockerfiles, path@) is None,
            },
    {
        let n = self.dockerfiles.len();
        let mut i: usize = 0;
        while i < n
            invariant
                0 <= i <= n,
                n == self.dockerfiles.len(),
                forall|k: int|
                    0 <= k < i ==> (#[trigger] self.deep_view().dockerfiles[k]).0 != path@,
            decreases n - i,
        {
            if str_eq(self.dockerfiles[i].0.as_str(), path) {
                proof {
                    lemma_lookup_simple_at(self.deep_view().dockerfiles, path@, i as int);
                }
                return Some(&self.dockerfiles[i].1);
            }
            i = i + 1;
        }
        proof {
            lemma_lookup_simple_none(self.deep_view().dockerfiles, path@);
        }
        None
    }

    /// The fast path: true exactly when a snapshot for `path` exists with the
    /// observed modification time and size, in which case the file may be
    /// taken as unchanged without rehashing it.
    pub fn quick_match(&self, path: &str, modified_time: u64, size: u64) -> (r: bool)
        ensures
            r == spec_quick_match(self.deep_view(), path@, modified_time, size),
    {
        match self.get(path) {
            None => false,
            Some(l) => l.modified_time == modified_time && l.size == size,
        }
    }

    /// The authoritative check: true exactly when no snapshot exists for
    /// `path` or the stored hash differs from `current_hash`.
    pub fn changed(&self, path: &str, current_hash: &str) -> (r: bool)
        ensures
            r == spec_simple_changed(self.deep_view(), path@, current_hash@),
    {
        match self.get(path) {
            None => true,
            Some(l) => !str_eq(l.content_hash.as_str(), current_hash),
        }
    }
}

} // verus!
