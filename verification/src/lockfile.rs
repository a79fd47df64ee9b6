//! The durable cache of container identities: per container name, the last
//! built identity hash, the resolved base image and dependency versions, and
//! the derived image tag.
use vstd::prelude::*;

use crate::codec::{enc_dependency, encode_config, push_enc_dependency, push_encode_config};
use crate::config::{ConfigView, ContainerConfig, Dependency, DependencyView};
use crate::digest::{sha256_hex, sha256_hex_of};
use crate::errors::ContainerError;
use crate::strutil::{is_lower_hex_char, str_eq};

verus! {

/// A dependency pinned by the lockfile: every field resolved to a concrete
/// value, plus its own digest.
#[derive(Debug)]
pub struct DependencyLock {
    pub package: String,
    pub version: String,
    pub source: String,
    pub hash: String,
}

#[verifier::ext_equal]
pub ghost struct DependencyLockView {
    pub package: Seq<char>,
    pub version: Seq<char>,
    pub source: Seq<char>,
    pub hash: Seq<char>,
}

impl DeepView for DependencyLock {
    type V = DependencyLockView;

    open spec fn deep_view(&self) -> DependencyLockView {
        DependencyLockView {
            package: self.package@,
            version: self.version@,
            source: self.source@,
            hash: self.hash@,
        }
    }
}

/// The persisted record for one container name.
#[derive(Debug)]
pub struct ContainerLock {
    pub image_hash: String,
    pub base_image: String,
    pub dependencies: Vec<DependencyLock>,
    pub config_hash: String,
}

#[verifier::ext_equal]
pub ghost struct ContainerLockView {
    pub image_hash: Seq<char>,
    pub base_image: Seq<char>,
    pub dependencies: Seq<DependencyLockView>,
    pub config_hash: Seq<char>,
}

impl DeepView for ContainerLock {
    type V = ContainerLockView;

    open spec fn deep_view(&self) -> ContainerLockView {
        ContainerLockView {
            image_hash: self.image_hash@,
            base_image: self.base_image@,
            dependencies: self.dependencies.deep_view(),
            config_hash: self.config_hash@,
        }
    }
}

/// The whole lockfile: a format version and the records in declaration order,
/// keyed by container name. The backing file is read once per invocation and
/// written at most once, with no locking: the store assumes a single writer
/// at a time, and concurrent invocations against one project may lose an
/// update.
#[derive(Debug)]
pub struct Lockfile {
    pub version: String,
    pub containers: Vec<(String, ContainerLock)>,
}

#[verifier::ext_equal]
pub ghost struct LockfileView {
    pub version: Seq<char>,
    pub containers: Seq<(Seq<char>, ContainerLockView)>,
}

impl DeepView for Lockfile {
    type V = LockfileView;

    open spec fn deep_view(&self) -> LockfileView {
        LockfileView { version: self.version@, containers: self.containers.deep_view() }
    }
}

/// The identity hash of a definition: the digest of its canonical
/// serialization.
pub open spec fn spec_config_hash(c: ConfigView) -> Seq<char> {
    sha256_hex(encode_config(c))
}

/// The digest of one dependency's canonical serialization.
pub open spec fn spec_dependency_hash(d: DependencyView) -> Seq<char> {
    sha256_hex(enc_dependency(d))
}

/// A missing version means "latest".
pub open spec fn resolved_version(d: DependencyView) -> Seq<char> {
    match d.version {
        Some(v) => v,
        None => "latest"@,
    }
}

/// A missing source means the default package manager.
pub open spec fn resolved_source(d: DependencyView) -> Seq<char> {
    match d.source {
        Some(s) => s,
        None => "default"@,
    }
}

/// A missing base image resolves to the fixed default.
pub open spec fn resolved_base_image(c: ConfigView) -> Seq<char> {
    match c.base_image {
        Some(b) => b,
        None => "ubuntu:latest"@,
    }
}

/// The lock entry derived from one dependency.
pub open spec fn dep_lock_of(d: DependencyView) -> DependencyLockView {
    DependencyLockView {
        package: d.package,
        version: resolved_version(d),
        source: resolved_source(d),
        hash: spec_dependency_hash(d),
    }
}

pub open spec fn dep_lock_fn() -> spec_fn(DependencyView) -> DependencyLockView {
    |d: DependencyView| dep_lock_of(d)
}

/// The derived image tag: the container name and the short form of its
/// identity hash, which keeps 32 hex digits (128 bits) of the digest.
pub open spec fn image_tag_of(name: Seq<char>, c: ConfigView) -> Seq<char> {
    name + "-"@ + spec_config_hash(c).take(32)
}

/// The record written for `name` after a successful build of `c`.
pub open spec fn lock_record_of(name: Seq<char>, c: ConfigView) -> ContainerLockView {
    ContainerLockView {
        image_hash: image_tag_of(name, c),
        base_image: resolved_base_image(c),
        dependencies: match c.dependencies {
            None => Seq::empty(),
            Some(ds) => ds.map_values(dep_lock_fn()),
        },
        config_hash: spec_config_hash(c),
    }
}

/// The lock entries derived from a whole configuration, in its order.
pub open spec fn spec_lock_entries(s: Seq<(Seq<char>, ConfigView)>) -> Seq<
    (Seq<char>, ContainerLockView),
> {
    s.map_values(|p: (Seq<char>, ConfigView)| (p.0, lock_record_of(p.0, p.1)))
}

/// The record stored under `name`, taking the first entry when a name is
/// repeated.
pub open spec fn lookup_lock(s: Seq<(Seq<char>, ContainerLockView)>, name: Seq<char>) -> Option<
    ContainerLockView,
>
    decreases s.len(),
{
    if s.len() == 0 {
        None
    } else if s[0].0 == name {
        Some(s[0].1)
    } else {
        lookup_lock(s.drop_first(), name)
    }
}

proof fn lemma_lookup_lock_at(s: Seq<(Seq<char>, ContainerLockView)>, name: Seq<char>, i: int)
    requires
        0 <= i < s.len(),
        s[i].0 == name,
        forall|k: int| 0 <= k < i ==> (#[trigger] s[k]).0 != name,
    ensures
        lookup_lock(s, name) == Some(s[i].1),
    decreases i,
{
    if i > 0 {
        lemma_lookup_lock_at(s.drop_first(), name, i - 1);
    }
}

proof fn lemma_lookup_lock_none(s: Seq<(Seq<char>, ContainerLockView)>, name: Seq<char>)
    requires
        forall|k: int| 0 <= k < s.len() ==> (#[trigger] s[k]).0 != name,
    ensures
        lookup_lock(s, name) is None,
    decreases s.len(),
{
    if s.len() > 0 {
        lemma_lookup_lock_none(s.drop_first(), name);
    }
}

/// Whether a rebuild is required by the cache alone: there is no record for
/// `name`, or the stored hash differs from the current one. A hash mismatch is
/// the only change signal.
pub open spec fn spec_changed(lf: LockfileView, name: Seq<char>, current_hash: Seq<char>) -> bool {
    match lookup_lock(lf.containers, name) {
        None => true,
        Some(l) => l.config_hash != current_hash,
    }
}

impl Lockfile {
    /// An empty store at the current format version.
    pub fn new() -> (r: Self)
        ensures
            r.deep_view().version == "1.0"@,
            r.deep_view().containers == Seq::<(Seq<char>, ContainerLockView)>::empty(),
    {
        let r = Lockfile { version: "1.0".to_owned(), containers: Vec::new() };
        proof {
            assert(r.deep_view().containers =~= Seq::<(Seq<char>, ContainerLockView)>::empty());
        }
        r
    }

    /// The identity hash of a definition: SHA-256 over the canonical
    /// serialization, as 64 hex characters. A pure function of the
    /// definition's contents.
    pub fn hash_config(config: &ContainerConfig) -> (r: String)
        ensures
            r@ == spec_config_hash(config.deep_view()),
            r@.len() == 64,
            forall|i: int| 0 <= i < r@.len() ==> is_lower_hex_char(#[trigger] r@[i]),
    {
        let mut buf = String::new();
        push_encode_config(&mut buf, config);
        proof {
            assert(buf@ =~= encode_config(config.deep_view()));
        }
        sha256_hex_of(buf.as_str())
    }

    /// The digest of one dependency's canonical serialization.
    pub fn hash_dependency(dep: &Dependency) -> (r: String)
        ensures
            r@ == spec_dependency_hash(dep.deep_view()),
            r@.len() == 64,
            forall|i: int| 0 <= i < r@.len() ==> is_lower_hex_char(#[trigger] r@[i]),
    {
        let mut buf = String::new();
        push_enc_dependency(&mut buf, dep);
        proof {
            assert(buf@ =~= enc_dependency(dep.deep_view()));
        }
        sha256_hex_of(buf.as_str())
    }

    /// Returns the record stored under `name`, if any.
    pub fn get(&self, name: &str) -> (r: Option<&ContainerLock>)
        ensures
            match r {
                Some(l) => lookup_lock(self.deep_view().containers, name@) == Some(l.deep_view()),
                None => lookup_lock(self.deep_view().containers, name@) is None,
            },
    {
        let n = self.containers.len();
        let mut i: usize = 0;
        while i < n
            invariant
                0 <= i <= n,
                n == self.containers.len(),
                forall|k: int|
                    0 <= k < i ==> (#[trigger] self.deep_view().containers[k]).0 != name@,
            decreases n - i,
        {
            if str_eq(self.containers[i].0.as_str(), name) {
                proof {
                    lemma_lookup_lock_at(self.deep_view().containers, name@, i as int);
                }
                return Some(&self.containers[i].1);
            }
            i = i + 1;
        }
        proof {
            lemma_lookup_lock_none(self.deep_view().containers, name@);
        }
        None
    }

    /// Decides whether `name` must be rebuilt as far as the cache can tell:
    /// true exactly when no record exists for `name` or the stored hash
    /// differs from `current_hash`.
    pub fn changed(&self, name: &str, current_hash: &str) -> (r: bool)
        ensures
            r == spec_changed(self.deep_view(), name@, current_hash@),
    {
        match self.get(name) {
            None => true,
            Some(l) => !str_eq(l.config_hash.as_str(), current_hash),
        }
    }

    /// Derives the lock entries for every definition, in configuration order:
    /// each entry carries the definition's identity hash, its resolved base
    /// image and dependencies, and the derived image tag.
    pub fn generate_from_config(containers: &Vec<(String, ContainerConfig)>) -> (r: Result<
        Lockfile,
        ContainerError,
    >)
        ensures
            r is Ok,
            r matches Ok(lf) ==> lf.deep_view().version == "1.0"@ && lf.deep_view().containers
                == spec_lock_entries(containers.deep_view()),
    {
        let ghost input = containers.deep_view();
        let mut entries: Vec<(String, ContainerLock)> = Vec::new();
        proof {
            assert(entries.deep_view() =~= spec_lock_entries(input.take(0)));
        }
        let n = containers.len();
        let mut i: usize = 0;
        while i < n
            invariant
                0 <= i <= n,
                n == containers.len(),
                input == containers.deep_view(),
                entries.deep_view() == spec_lock_entries(input.take(i as int)),
            decreases n - i,
        {
            let name = containers[i].0.clone();
            let config = &containers[i].1;
            let config_hash = Self::hash_config(config);
            let base_image: String = match &config.base_image {
                Some(b) => b.clone(),
                None => "ubuntu:latest".to_owned(),
            };
            let mut deps: Vec<DependencyLock> = Vec::new();
            match &config.dependencies {
                None => {
                    proof {
                        assert(deps.deep_view() =~~= lock_record_of(
                            name@,
                            config.deep_view(),
                        ).dependencies);
                    }
                },
                Some(ds) => {
                    proof {
                        assert(deps.deep_view() =~= ds.deep_view().take(0).map_values(
                            dep_lock_fn(),
                        ));
                    }
                    let dn = ds.len();
                    let mut j: usize = 0;
                    while j < dn
                        invariant
                            0 <= j <= dn,
                            dn == ds.len(),
                            deps.deep_view() == ds.deep_view().take(j as int).map_values(
                                dep_lock_fn(),
                            ),
                        decreases dn - j,
                    {
                        let d = &ds[j];
                        let version: String = match &d.version {
                            Some(v) => v.clone(),
                            None => "latest".to_owned(),
                        };
                        let source: String = match &d.source {
                            Some(s) => s.clone(),
                            None => "default".to_owned(),
                        };
                        let hash = Self::hash_dependency(d);
                        proof {
                            assert(deps.deep_view().len() == ds.deep_view().take(
                                j as int,
                            ).map_values(dep_lock_fn()).len());
                            assert(deps.deep_view().len() == j as int);
                            assert(deps@.len() == j as int);
                        }
                        deps.push(DependencyLock { package: d.package.clone(), version, source, hash });
                        proof {
                            let dsv = ds.deep_view();
                            assert(dsv.take(j as int + 1) =~= dsv.take(j as int).push(
                                dsv[j as int],
                            ));
                            assert(dsv[j as int] == d.deep_view());
                            assert(deps.deep_view()[j as int] == deps@[j as int].deep_view());
                            assert(deps.deep_view()[j as int] =~= dep_lock_of(dsv[j as int]));
                            let post = dsv.take(j as int + 1).map_values(dep_lock_fn());
                            let pre = dsv.take(j as int).map_values(dep_lock_fn());
                            assert forall|k: int| 0 <= k < j + 1 implies deps.deep_view()[k]
                                == post[k] by {
                                if k < j {
                                    assert(deps.deep_view()[k] == pre[k]);
                                    assert(pre[k] == dep_lock_of(dsv.take(j as int)[k]));
                                    assert(post[k] == dep_lock_of(dsv.take(j as int + 1)[k]));
                                    assert(dsv.take(j as int)[k] == dsv[k]);
                                    assert(dsv.take(j as int + 1)[k] == dsv[k]);
                                } else {
                                    assert(post[k] == dep_lock_of(dsv.take(j as int + 1)[k]));
                                    assert(dsv.take(j as int + 1)[k] == dsv[k]);
                                }
                            }
                            assert(deps.deep_view() =~= post);
                        }
                        j = j + 1;
                    }
                    proof {
                        assert(ds.deep_view().take(dn as int) =~= ds.deep_view());
                    }
                },
            }
            let mut image_hash = String::new();
            image_hash.append(name.as_str());
            image_hash.append("-");
            let prefix = config_hash.as_str().substring_char(0, 32);
            image_hash.append(prefix);
            proof {
                assert(image_hash@ =~= image_tag_of(name@, config.deep_view()));
            }
            let record = ContainerLock { image_hash, base_image, dependencies: deps, config_hash };
            proof {
                assert(record.deep_view() =~~= lock_record_of(name@, config.deep_view()));
            }
            proof {
                assert(entries.deep_view().len() == spec_lock_entries(
                    input.take(i as int),
                ).len());
                assert(entries@.len() == i as int);
            }
            entries.push((name, record));
            proof {
                assert(entries@[i as int].0 == name && entries@[i as int].1 == record);
                let post = spec_lock_entries(input.take(i as int + 1));
                let pre = spec_lock_entries(input.take(i as int));
                assert forall|k: int| 0 <= k < i + 1 implies entries.deep_view()[k] == post[k] by {
                    assert(post[k] == (input.take(i as int + 1)[k].0, lock_record_of(
                        input.take(i as int + 1)[k].0,
                        input.take(i as int + 1)[k].1,
                    )));
                    assert(input.take(i as int + 1)[k] == input[k]);
                    if k < i {
                        assert(entries.deep_view()[k] == pre[k]);
                        assert(pre[k] == (input.take(i as int)[k].0, lock_record_of(
                            input.take(i as int)[k].0,
                            input.take(i as int)[k].1,
                        )));
                        assert(input.take(i as int)[k] == input[k]);
                    } else {
                        assert(entries.deep_view()[k] == (name@, record.deep_view()));
                        assert(input[k] == (containers@[k].0@, containers@[k].1.deep_view()));
                    }
                }
                assert(entries.deep_view() =~= post);
            }
            i = i + 1;
        }
        proof {
            assert(input.take(n as int) =~= input);
        }
        let lf = Lockfile { version: "1.0".to_owned(), containers: entries };
        Ok(lf)
    }
}

} // verus!
